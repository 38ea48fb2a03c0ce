use vstd::prelude::*;
use std::collections::HashMap;
use crate::arith::u128_max;
use crate::ledger::{Exchange, MarketTokenInfo, amount_in, contains_account};
use crate::types::{
    AccountId, Error, Market, MarketConfig, MarketId, OracleConfig, PoolAmounts, Price, TokenId,
    USD_SCALE, Usd, empty_pool,
};

verus! {

broadcast use vstd::std_specs::hash::group_hash_axioms;

/// A price update for one token, stamped with the time it was observed.
#[derive(Clone, Copy, Debug, PartialEq, Eq, Structural)]
pub struct SignedPrice {
    pub token: TokenId,
    pub price: Price,
    pub timestamp: u64,
    pub signer: AccountId,
}

/// Token amount valued at `price`, in USD.
pub open spec fn to_usd(amount: nat, price: nat) -> Result<nat, Error> {
    if amount * price > u128_max() {
        Err(Error::MathOverflow)
    } else {
        Ok(amount * price / (USD_SCALE as nat))
    }
}

/// Shares minted for `added` USD into a pool of `liquidity` with `supply` shares out:
/// the value itself for the first deposit, else pro rata to the pool before it.
pub open spec fn minted(supply: nat, liquidity: nat, added: nat) -> Result<nat, Error> {
    if supply == 0 {
        Ok(added)
    } else if liquidity == 0 {
        Err(Error::InsufficientLiquidity)
    } else if supply * added > u128_max() {
        Err(Error::MathOverflow)
    } else {
        Ok(supply * added / liquidity)
    }
}

/// What a deposit adds: the USD value and the shares minted.
#[derive(Clone, Copy, Debug, PartialEq, Eq, Structural)]
pub struct DepositQuote {
    pub added_usd: u128,
    pub minted: u128,
}

/// Value a deposit of `long_amount` and `short_amount` adds and the shares it mints.
pub open spec fn deposit_quote(
    long_amount: nat,
    long_price: nat,
    short_amount: nat,
    short_price: nat,
    supply: nat,
    liquidity: nat,
) -> Result<DepositQuote, Error> {
    match (to_usd(long_amount, long_price), to_usd(short_amount, short_price)) {
        (Ok(l), Ok(s)) => if l + s > u128_max() {
            Err(Error::MathOverflow)
        } else {
            match minted(supply, liquidity, l + s) {
                Err(e) => Err(e),
                Ok(m) => Ok(DepositQuote { added_usd: (l + s) as u128, minted: m as u128 }),
            }
        },
        (Err(e), _) => Err(e),
        (_, Err(e)) => Err(e),
    }
}

/// What a withdrawal takes out: shares of liquidity and of each fee bucket, and the
/// token amounts paid.
#[derive(Clone, Copy, Debug, PartialEq, Eq, Structural)]
pub struct WithdrawalQuote {
    pub liquidity_usd: u128,
    pub fee_long_usd: u128,
    pub fee_short_usd: u128,
    pub long_out: u128,
    pub short_out: u128,
}

/// Pro-rata share `amount * shares / supply`.
pub open spec fn share_of(amount: nat, shares: nat, supply: nat) -> nat {
    amount * shares / supply
}

/// The withdrawal of `shares` of `supply` from `pool`: the liquidity share is split
/// between the two tokens by price weight, each side gets its fee bucket's share, and
/// the USD totals are converted back to tokens at their prices.
pub open spec fn withdrawal_quote(
    pool: PoolAmounts,
    supply: nat,
    shares: nat,
    long_price: nat,
    short_price: nat,
) -> Result<WithdrawalQuote, Error> {
    let liq = pool.liquidity_usd as nat;
    let fl = pool.claimable_fee_usd_long as nat;
    let fs = pool.claimable_fee_usd_short as nat;
    if long_price == 0 || short_price == 0 {
        Err(Error::InvalidPrice)
    } else if liq * shares > u128_max() || fl * shares > u128_max() || fs * shares > u128_max()
        || long_price + short_price > u128_max() {
        Err(Error::MathOverflow)
    } else {
        let liq_usd = share_of(liq, shares, supply);
        if liq_usd * long_price > u128_max() {
            Err(Error::MathOverflow)
        } else {
            let long_base = liq_usd * long_price / (long_price + short_price);
            let short_base = (liq_usd - long_base) as nat;
            let total_long = long_base + share_of(fl, shares, supply);
            let total_short = short_base + share_of(fs, shares, supply);
            if total_long * (USD_SCALE as nat) > u128_max() || total_short * (USD_SCALE as nat)
                > u128_max() {
                Err(Error::MathOverflow)
            } else {
                Ok(
                    WithdrawalQuote {
                        liquidity_usd: liq_usd as u128,
                        fee_long_usd: share_of(fl, shares, supply) as u128,
                        fee_short_usd: share_of(fs, shares, supply) as u128,
                        long_out: (total_long * (USD_SCALE as nat) / long_price) as u128,
                        short_out: (total_short * (USD_SCALE as nat) / short_price) as u128,
                    },
                )
            }
        }
    }
}

/// Value `amount` tokens at `price`; see `to_usd`.
fn value_usd(amount: u128, price: u128) -> (r: Result<u128, Error>)
    ensures
        match to_usd(amount as nat, price as nat) {
            Ok(v) => r == Ok::<u128, Error>(v as u128),
            Err(e) => r == Err::<u128, Error>(e),
        },
{
    match amount.checked_mul(price) {
        Some(v) => Ok(v / USD_SCALE),
        None => Err(Error::MathOverflow),
    }
}

/// Quote a deposit; see `deposit_quote`.
pub fn quote_deposit(
    long_amount: u128,
    long_price: u128,
    short_amount: u128,
    short_price: u128,
    supply: u128,
    liquidity: u128,
) -> (r: Result<DepositQuote, Error>)
    ensures
        r == deposit_quote(
            long_amount as nat,
            long_price as nat,
            short_amount as nat,
            short_price as nat,
            supply as nat,
            liquidity as nat,
        ),
{
    let l = match value_usd(long_amount, long_price) {
        Ok(v) => v,
        Err(e) => {
            return Err(e);
        },
    };
    let s = match value_usd(short_amount, short_price) {
        Ok(v) => v,
        Err(e) => {
            return Err(e);
        },
    };
    if l > u128::MAX - s {
        return Err(Error::MathOverflow);
    }
    let added = l + s;
    let minted = if supply == 0 {
        added
    } else if liquidity == 0 {
        return Err(Error::InsufficientLiquidity);
    } else {
        match supply.checked_mul(added) {
            Some(v) => v / liquidity,
            None => {
                return Err(Error::MathOverflow);
            },
        }
    };
    Ok(DepositQuote { added_usd: added, minted })
}

/// Quote a withdrawal; see `withdrawal_quote`.
pub fn quote_withdrawal(
    pool: &PoolAmounts,
    supply: u128,
    shares: u128,
    long_price: u128,
    short_price: u128,
) -> (r: Result<WithdrawalQuote, Error>)
    requires
        supply > 0,
        shares <= supply,
    ensures
        r == withdrawal_quote(*pool, supply as nat, shares as nat, long_price as nat, short_price as nat),
        r is Ok ==> r->Ok_0.liquidity_usd <= pool.liquidity_usd && r->Ok_0.fee_long_usd
            <= pool.claimable_fee_usd_long && r->Ok_0.fee_short_usd <= pool.claimable_fee_usd_short,
{
    if long_price == 0 || short_price == 0 {
        return Err(Error::InvalidPrice);
    }
    let a = pool.liquidity_usd.checked_mul(shares);
    let b = pool.claimable_fee_usd_long.checked_mul(shares);
    let c = pool.claimable_fee_usd_short.checked_mul(shares);
    if a.is_none() || b.is_none() || c.is_none() || long_price > u128::MAX - short_price {
        return Err(Error::MathOverflow);
    }
    let liq_usd = a.unwrap() / supply;
    let fee_long = b.unwrap() / supply;
    let fee_short = c.unwrap() / supply;
    proof {
        let s = supply as nat;
        let n = shares as nat;
        assert((pool.liquidity_usd as nat) * n / s <= pool.liquidity_usd) by (nonlinear_arith)
            requires
                n <= s,
                s > 0,
        ;
        assert((pool.claimable_fee_usd_long as nat) * n / s <= pool.claimable_fee_usd_long) by (nonlinear_arith)
            requires
                n <= s,
                s > 0,
        ;
        assert((pool.claimable_fee_usd_short as nat) * n / s <= pool.claimable_fee_usd_short) by (nonlinear_arith)
            requires
                n <= s,
                s > 0,
        ;
    }
    let long_base = match liq_usd.checked_mul(long_price) {
        Some(v) => v / (long_price + short_price),
        None => {
            return Err(Error::MathOverflow);
        },
    };
    proof {
        let sum = (long_price + short_price) as nat;
        assert((liq_usd as nat) * (long_price as nat) / sum <= liq_usd) by (nonlinear_arith)
            requires
                long_price <= sum,
                sum > 0,
        ;
    }
    let short_base = liq_usd - long_base;
    if long_base > u128::MAX - fee_long || short_base > u128::MAX - fee_short {
        return Err(Error::MathOverflow);
    }
    let total_long = long_base + fee_long;
    let total_short = short_base + fee_short;
    let long_out = match total_long.checked_mul(USD_SCALE) {
        Some(v) => v / long_price,
        None => {
            return Err(Error::MathOverflow);
        },
    };
    let short_out = match total_short.checked_mul(USD_SCALE) {
        Some(v) => v / short_price,
        None => {
            return Err(Error::MathOverflow);
        },
    };
    Ok(
        WithdrawalQuote {
            liquidity_usd: liq_usd,
            fee_long_usd: fee_long,
            fee_short_usd: fee_short,
            long_out,
            short_out,
        },
    )
}

/// Prices after applying a batch of updates in order.
pub open spec fn apply_prices(prices: Map<TokenId, Price>, batch: Seq<SignedPrice>) -> Map<TokenId, Price>
    decreases batch.len(),
{
    if batch.len() == 0 {
        prices
    } else {
        apply_prices(prices, batch.drop_last()).insert(batch.last().token, batch.last().price)
    }
}

/// Timestamps after applying a batch of updates in order.
pub open spec fn apply_times(times: Map<TokenId, u64>, batch: Seq<SignedPrice>) -> Map<TokenId, u64>
    decreases batch.len(),
{
    if batch.len() == 0 {
        times
    } else {
        apply_times(times, batch.drop_last()).insert(batch.last().token, batch.last().timestamp)
    }
}

/// Last signers after applying a batch of updates in order.
pub open spec fn apply_signers(signers: Map<TokenId, AccountId>, batch: Seq<SignedPrice>) -> Map<
    TokenId,
    AccountId,
>
    decreases batch.len(),
{
    if batch.len() == 0 {
        signers
    } else {
        apply_signers(signers, batch.drop_last()).insert(batch.last().token, batch.last().signer)
    }
}

/// Whether a quote taken at `ts` is too old at `now`.
pub open spec fn stale(ts: u64, now: u64, max_age: u64) -> bool {
    now > ts && now - ts > max_age
}

impl Exchange {
    /// Create a market with its configuration, an empty pool and no shares (admin only).
    pub fn create_market(
        &mut self,
        caller: AccountId,
        market_id: MarketId,
        index_token: TokenId,
        long_token: TokenId,
        short_token: TokenId,
        market_token: TokenId,
        config: MarketConfig,
    ) -> (r: Result<(), Error>)
        requires
            old(self).wf(),
        ensures
            final(self).wf(),
            old(self).admin != caller ==> r == Err::<(), Error>(Error::Unauthorized),
            old(self).admin == caller && old(self).markets@.contains_key(market_id) ==> r == Err::<
                (),
                Error,
            >(Error::MarketAlreadyExists),
            old(self).admin == caller && !old(self).markets@.contains_key(market_id) ==> {
                &&& r is Ok
                &&& final(self).markets@ == old(self).markets@.insert(
                    market_id,
                    Market { market_token, index_token, long_token, short_token },
                )
                &&& final(self).market_configs@ == old(self).market_configs@.insert(market_id, config)
                &&& final(self).pool_amounts@ == old(self).pool_amounts@.insert(market_id, empty_pool())
                &&& final(self).market_tokens@.contains_key(market_id)
                &&& final(self).market_tokens@[market_id].total_supply == 0
                &&& final(self).market_tokens@[market_id].balances@.is_empty()
                &&& final(self).positions == old(self).positions
                &&& final(self).balances == old(self).balances
                &&& final(self).orders == old(self).orders
            },
            r is Err ==> *final(self) == *old(self),
    {
        if self.admin != caller {
            return Err(Error::Unauthorized);
        }
        if self.markets.contains_key(&market_id) {
            return Err(Error::MarketAlreadyExists);
        }
        self.markets.insert(market_id, Market { market_token, index_token, long_token, short_token });
        self.market_configs.insert(market_id, config);
        self.pool_amounts.insert(market_id, PoolAmounts::default());
        self.market_tokens.insert(market_id, MarketTokenInfo { total_supply: 0, balances: HashMap::new() });
        proof {
            assert forall|m: MarketId| #[trigger] self.pool_amounts@.contains_key(m) implies self.pool_amounts@[
                m
            ].funding_balanced() by {
                if m != market_id {
                    assert(old(self).pool_amounts@.contains_key(m));
                }
            }
            assert(self.markets@.dom() =~= self.market_configs@.dom());
            assert(self.markets@.dom() =~= self.pool_amounts@.dom());
            assert(self.markets@.dom() =~= self.market_tokens@.dom());
        }
        Ok(())
    }

    /// Replace a market's configuration (admin only).
    pub fn set_market_config(&mut self, caller: AccountId, market_id: MarketId, config: MarketConfig) -> (r:
        Result<(), Error>)
        requires
            old(self).wf(),
        ensures
            final(self).wf(),
            old(self).admin != caller ==> r == Err::<(), Error>(Error::Unauthorized),
            old(self).admin == caller && !old(self).markets@.contains_key(market_id) ==> r == Err::<
                (),
                Error,
            >(Error::MarketNotFound),
            r is Err ==> *final(self) == *old(self),
            r is Ok ==> final(self).market_configs@ == old(self).market_configs@.insert(market_id, config)
                && final(self).pool_amounts == old(self).pool_amounts && final(self).markets
                == old(self).markets && final(self).positions == old(self).positions,
            old(self).admin == caller && old(self).markets@.contains_key(market_id) ==> r is Ok,
    {
        if self.admin != caller {
            return Err(Error::Unauthorized);
        }
        if !self.markets.contains_key(&market_id) {
            return Err(Error::MarketNotFound);
        }
        self.market_configs.insert(market_id, config);
        proof {
            assert(self.markets@.dom() =~= self.market_configs@.dom());
        }
        Ok(())
    }

    /// The pool of a market.
    pub fn get_pool(&self, market_id: MarketId) -> (r: Result<PoolAmounts, Error>)
        ensures
            self.pool_amounts@.contains_key(market_id) ==> r == Ok::<PoolAmounts, Error>(
                self.pool_amounts@[market_id],
            ),
            !self.pool_amounts@.contains_key(market_id) ==> r == Err::<PoolAmounts, Error>(
                Error::MarketNotFound,
            ),
    {
        match self.pool_amounts.get(&market_id) {
            Some(p) => Ok(*p),
            None => Err(Error::MarketNotFound),
        }
    }

    /// Last quote of a token.
    pub fn get_price(&self, token: TokenId) -> (r: Result<Price, Error>)
        ensures
            self.oracle.prices@.contains_key(token) ==> r == Ok::<Price, Error>(self.oracle.prices@[token]),
            !self.oracle.prices@.contains_key(token) ==> r == Err::<Price, Error>(Error::PriceNotAvailable),
    {
        match self.oracle.prices.get(&token) {
            Some(p) => Ok(*p),
            None => Err(Error::PriceNotAvailable),
        }
    }

    /// Mid price of a token.
    pub fn mid(&self, token: TokenId) -> (r: Result<u128, Error>)
        ensures
            self.oracle.prices@.contains_key(token) ==> r == Ok::<u128, Error>(
                self.oracle.prices@[token].spec_mid() as u128,
            ),
            !self.oracle.prices@.contains_key(token) ==> r == Err::<u128, Error>(Error::PriceNotAvailable),
    {
        match self.get_price(token) {
            Ok(p) => Ok(p.mid()),
            Err(e) => Err(e),
        }
    }

    /// Spread of a token's quote.
    pub fn spread(&self, token: TokenId) -> (r: Result<u128, Error>)
        ensures
            self.oracle.prices@.contains_key(token) ==> r == Ok::<u128, Error>(
                self.oracle.prices@[token].spec_spread() as u128,
            ),
            !self.oracle.prices@.contains_key(token) ==> r == Err::<u128, Error>(Error::PriceNotAvailable),
    {
        match self.get_price(token) {
            Ok(p) => Ok(p.spread()),
            Err(e) => Err(e),
        }
    }

    /// When a token's price was last observed.
    pub fn last_update(&self, token: TokenId) -> (r: Option<u64>)
        ensures
            self.oracle.timestamps@.contains_key(token) ==> r == Some(self.oracle.timestamps@[token]),
            !self.oracle.timestamps@.contains_key(token) ==> r is None,
    {
        match self.oracle.timestamps.get(&token) {
            Some(t) => Some(*t),
            None => None,
        }
    }

    /// Who supplied a token's last price.
    pub fn last_signer(&self, token: TokenId) -> (r: Option<AccountId>)
        ensures
            self.oracle.last_signer@.contains_key(token) ==> r == Some(self.oracle.last_signer@[token]),
            !self.oracle.last_signer@.contains_key(token) ==> r is None,
    {
        match self.oracle.last_signer.get(&token) {
            Some(a) => Some(*a),
            None => None,
        }
    }

    /// Fail unless a token's price is known and no older than the configured age at `now`.
    pub fn ensure_fresh(&self, token: TokenId, now: u64) -> (r: Result<(), Error>)
        ensures
            !self.oracle.timestamps@.contains_key(token) ==> r == Err::<(), Error>(Error::PriceNotAvailable),
            self.oracle.timestamps@.contains_key(token) && stale(
                self.oracle.timestamps@[token],
                now,
                self.oracle.config.max_age_seconds,
            ) ==> r == Err::<(), Error>(Error::PriceStale),
            self.oracle.timestamps@.contains_key(token) && !stale(
                self.oracle.timestamps@[token],
                now,
                self.oracle.config.max_age_seconds,
            ) ==> r is Ok,
    {
        match self.oracle.timestamps.get(&token) {
            None => Err(Error::PriceNotAvailable),
            Some(ts) => {
                if now > *ts && now - *ts > self.oracle.config.max_age_seconds {
                    Err(Error::PriceStale)
                } else {
                    Ok(())
                }
            },
        }
    }

    /// Record a batch of price updates observed at their timestamps; the whole batch is
    /// refused if any of them is already stale at `now`.
    pub fn set_prices(&mut self, batch: &Vec<SignedPrice>, now: u64) -> (r: Result<(), Error>)
        requires
            old(self).wf(),
        ensures
            final(self).wf(),
            (exists|i: int|
                0 <= i < batch@.len() && stale(
                    #[trigger] batch@[i].timestamp,
                    now,
                    old(self).oracle.config.max_age_seconds,
                )) ==> r == Err::<(), Error>(Error::PriceStale) && *final(self) == *old(self),
            !(exists|i: int|
                0 <= i < batch@.len() && stale(
                    #[trigger] batch@[i].timestamp,
                    now,
                    old(self).oracle.config.max_age_seconds,
                )) ==> {
                &&& r is Ok
                &&& final(self).oracle.prices@ == apply_prices(old(self).oracle.prices@, batch@)
                &&& final(self).oracle.timestamps@ == apply_times(old(self).oracle.timestamps@, batch@)
                &&& final(self).oracle.last_signer@ == apply_signers(old(self).oracle.last_signer@, batch@)
                &&& final(self).oracle.config == old(self).oracle.config
                &&& final(self).pool_amounts == old(self).pool_amounts
                &&& final(self).positions == old(self).positions
                &&& final(self).balances == old(self).balances
                &&& final(self).markets == old(self).markets
            },
    {
        let max_age = self.oracle.config.max_age_seconds;
        let mut i: usize = 0;
        while i < batch.len()
            invariant
                i <= batch@.len(),
                *self == *old(self),
                self.wf(),
                max_age == old(self).oracle.config.max_age_seconds,
                forall|j: int| 0 <= j < i ==> !stale(#[trigger] batch@[j].timestamp, now, max_age),
            decreases batch@.len() - i,
        {
            let ts = batch[i].timestamp;
            if now > ts && now - ts > max_age {
                assert(stale(batch@[i as int].timestamp, now, max_age));
                return Err(Error::PriceStale);
            }
            i = i + 1;
        }
        let mut k: usize = 0;
        while k < batch.len()
            invariant
                k <= batch@.len(),
                self.wf(),
                self.oracle.prices@ == apply_prices(old(self).oracle.prices@, batch@.take(k as int)),
                self.oracle.timestamps@ == apply_times(old(self).oracle.timestamps@, batch@.take(k as int)),
                self.oracle.last_signer@ == apply_signers(old(self).oracle.last_signer@, batch@.take(k as int)),
                self.oracle.config == old(self).oracle.config,
                self.pool_amounts == old(self).pool_amounts,
                self.positions == old(self).positions,
                self.balances == old(self).balances,
                self.markets == old(self).markets,
                self.market_configs == old(self).market_configs,
                self.market_tokens == old(self).market_tokens,
                self.orders == old(self).orders,
            decreases batch@.len() - k,
        {
            let sp = batch[k];
            self.oracle.prices.insert(sp.token, sp.price);
            self.oracle.timestamps.insert(sp.token, sp.timestamp);
            self.oracle.last_signer.insert(sp.token, sp.signer);
            proof {
                assert(batch@.take(k + 1).drop_last() =~= batch@.take(k as int));
            }
            k = k + 1;
        }
        proof {
            assert(batch@.take(batch@.len() as int) =~= batch@);
        }
        Ok(())
    }

    /// Replace the price-feed configuration (admin only).
    pub fn set_config(&mut self, caller: AccountId, cfg: OracleConfig) -> (r: Result<(), Error>)
        requires
            old(self).wf(),
        ensures
            final(self).wf(),
            old(self).admin != caller ==> r == Err::<(), Error>(Error::Unauthorized) && *final(self)
                == *old(self),
            old(self).admin == caller ==> r is Ok && final(self).oracle.config == cfg
                && final(self).oracle.prices == old(self).oracle.prices && final(self).oracle.timestamps
                == old(self).oracle.timestamps && final(self).oracle.last_signer == old(self).oracle.last_signer,
    {
        if self.admin != caller {
            return Err(Error::Unauthorized);
        }
        self.oracle.config = cfg;
        Ok(())
    }

    /// Credit `amount` to the caller's balance.
    pub fn deposit(&mut self, caller: AccountId, amount: Usd) -> (r: Result<Usd, Error>)
        requires
            old(self).wf(),
        ensures
            final(self).wf(),
            amount == 0 ==> r == Err::<Usd, Error>(Error::InvalidParameter),
            amount > 0 && amount_in(old(self).balances@, caller) + amount > u128_max() ==> r == Err::<
                Usd,
                Error,
            >(Error::MathOverflow),
            r is Err ==> *final(self) == *old(self),
            amount > 0 && amount_in(old(self).balances@, caller) + amount <= u128_max() ==> {
                &&& r == Ok::<Usd, Error>((amount_in(old(self).balances@, caller) + amount) as u128)
                &&& final(self).balances@ == old(self).balances@.insert(caller, r->Ok_0)
                &&& final(self).pool_amounts == old(self).pool_amounts
                &&& final(self).positions == old(self).positions
            },
    {
        if amount == 0 {
            return Err(Error::InvalidParameter);
        }
        let bal = self.balance_of(caller);
        if bal > u128::MAX - amount {
            return Err(Error::MathOverflow);
        }
        self.balances.insert(caller, bal + amount);
        Ok(bal + amount)
    }

    /// Debit `amount` from the caller's balance.
    pub fn withdraw(&mut self, caller: AccountId, amount: Usd) -> (r: Result<Usd, Error>)
        requires
            old(self).wf(),
        ensures
            final(self).wf(),
            amount == 0 ==> r == Err::<Usd, Error>(Error::InvalidParameter),
            amount > 0 && amount_in(old(self).balances@, caller) < amount ==> r == Err::<Usd, Error>(
                Error::InsufficientBalance,
            ),
            r is Err ==> *final(self) == *old(self),
            amount > 0 && amount_in(old(self).balances@, caller) >= amount ==> {
                &&& r == Ok::<Usd, Error>((amount_in(old(self).balances@, caller) - amount) as u128)
                &&& final(self).balances@ == old(self).balances@.insert(caller, r->Ok_0)
                &&& final(self).pool_amounts == old(self).pool_amounts
                &&& final(self).positions == old(self).positions
            },
    {
        if amount == 0 {
            return Err(Error::InvalidParameter);
        }
        let bal = self.balance_of(caller);
        if bal < amount {
            return Err(Error::InsufficientBalance);
        }
        self.balances.insert(caller, bal - amount);
        Ok(bal - amount)
    }
}

impl Exchange {
    /// Shares of a market held by `lp`.
    pub open spec fn lp_shares(&self, market: MarketId, lp: AccountId) -> nat {
        amount_in(self.market_tokens@[market].balances@, lp)
    }

    /// Only `market`'s share ledger differs from `old`'s.
    pub open spec fn other_shares_same(&self, old: &Exchange, market: MarketId) -> bool {
        &&& self.market_tokens@.dom() == old.market_tokens@.dom()
        &&& forall|m: MarketId| m != market ==> #[trigger] self.market_tokens@[m] == old.market_tokens@[m]
    }

    /// Outcome of valuing a deposit into `market` at the tokens' mid prices.
    pub open spec fn deposit_outcome(&self, market: MarketId, long_amount: nat, short_amount: nat) -> Result<
        DepositQuote,
        Error,
    > {
        if !self.markets@.contains_key(market) {
            Err(Error::MarketNotFound)
        } else {
            let m = self.markets@[market];
            if !self.oracle.prices@.contains_key(m.long_token) || !self.oracle.prices@.contains_key(
                m.short_token,
            ) {
                Err(Error::PriceNotAvailable)
            } else {
                deposit_quote(
                    long_amount,
                    self.oracle.prices@[m.long_token].spec_mid(),
                    short_amount,
                    self.oracle.prices@[m.short_token].spec_mid(),
                    self.market_tokens@[market].total_supply as nat,
                    self.pool_amounts@[market].liquidity_usd as nat,
                )
            }
        }
    }

    /// Deposit tokens into a market's pool and mint shares to `lp`: the deposit's USD
    /// value at mid prices is added to the pool's liquidity, and the shares minted equal
    /// that value for the first deposit, else are pro rata to the pool before it.
    /// Nothing changes on failure.
    pub fn add_liquidity(
        &mut self,
        lp: AccountId,
        market_id: MarketId,
        long_token_amount: u128,
        short_token_amount: u128,
        min_mint: u128,
    ) -> (r: Result<u128, Error>)
        requires
            old(self).wf(),
        ensures
            final(self).wf(),
            r is Err ==> *final(self) == *old(self),
            match old(self).deposit_outcome(market_id, long_token_amount as nat, short_token_amount as nat) {
                Err(e) => r == Err::<u128, Error>(e),
                Ok(q) => {
                    let pool = old(self).pool_amounts@[market_id];
                    let supply = old(self).market_tokens@[market_id].total_supply;
                    if q.minted < min_mint {
                        r == Err::<u128, Error>(Error::SlippageExceeded)
                    } else if pool.liquidity_usd + q.added_usd > u128_max() || supply + q.minted > u128_max()
                        || old(self).lp_shares(market_id, lp) + q.minted > u128_max() {
                        r == Err::<u128, Error>(Error::MathOverflow)
                    } else {
                        &&& r == Ok::<u128, Error>(q.minted)
                        &&& final(self).pool_amounts@ == old(self).pool_amounts@.insert(
                            market_id,
                            PoolAmounts { liquidity_usd: (pool.liquidity_usd + q.added_usd) as u128, ..pool },
                        )
                        &&& final(self).market_tokens@[market_id].total_supply == supply + q.minted
                        &&& final(self).market_tokens@[market_id].balances@ == old(
                            self,
                        ).market_tokens@[market_id].balances@.insert(
                            lp,
                            (old(self).lp_shares(market_id, lp) + q.minted) as u128,
                        )
                        &&& final(self).other_shares_same(old(self), market_id)
                        &&& final(self).same_trading(old(self))
                    }
                },
            },
    {
        let market = match self.markets.get(&market_id) {
            Some(m) => *m,
            None => {
                return Err(Error::MarketNotFound);
            },
        };
        let long_price = match self.oracle.prices.get(&market.long_token) {
            Some(p) => p.mid(),
            None => {
                return Err(Error::PriceNotAvailable);
            },
        };
        let short_price = match self.oracle.prices.get(&market.short_token) {
            Some(p) => p.mid(),
            None => {
                return Err(Error::PriceNotAvailable);
            },
        };
        let pool = match self.pool_amounts.get(&market_id) {
            Some(p) => *p,
            None => {
                return Err(Error::MarketNotFound);
            },
        };
        let (supply, held) = match self.market_tokens.get(&market_id) {
            Some(t) => (
                t.total_supply,
                match t.balances.get(&lp) {
                    Some(b) => *b,
                    None => 0,
                },
            ),
            None => {
                return Err(Error::MarketNotFound);
            },
        };
        let q = match quote_deposit(
            long_token_amount,
            long_price,
            short_token_amount,
            short_price,
            supply,
            pool.liquidity_usd,
        ) {
            Ok(v) => v,
            Err(e) => {
                return Err(e);
            },
        };
        if q.minted < min_mint {
            return Err(Error::SlippageExceeded);
        }
        if pool.liquidity_usd > u128::MAX - q.added_usd || supply > u128::MAX - q.minted || held
            > u128::MAX - q.minted {
            return Err(Error::MathOverflow);
        }
        let mut info = match self.market_tokens.remove(&market_id) {
            Some(t) => t,
            None => {
                return Err(Error::MarketNotFound);
            },
        };
        info.total_supply = supply + q.minted;
        info.balances.insert(lp, held + q.minted);
        self.market_tokens.insert(market_id, info);
        self.pool_amounts.insert(market_id, PoolAmounts { liquidity_usd: pool.liquidity_usd + q.added_usd, ..pool });
        proof {
            assert(self.market_tokens@.dom() =~= old(self).market_tokens@.dom().insert(market_id));
            assert(self.pool_amounts@.dom() =~= old(self).pool_amounts@.dom().insert(market_id));
            self.lemma_pool_update_wf(old(self), market_id);
        }
        Ok(q.minted)
    }

    /// Outcome of withdrawing `shares` of `market` held by `lp`.
    pub open spec fn withdrawal_outcome(&self, lp: AccountId, market: MarketId, shares: nat) -> Result<
        WithdrawalQuote,
        Error,
    > {
        if !self.markets@.contains_key(market) {
            Err(Error::MarketNotFound)
        } else {
            let m = self.markets@[market];
            let supply = self.market_tokens@[market].total_supply as nat;
            if !self.oracle.prices@.contains_key(m.long_token) || !self.oracle.prices@.contains_key(
                m.short_token,
            ) {
                Err(Error::PriceNotAvailable)
            } else if supply == 0 {
                Err(Error::InsufficientLiquidity)
            } else if self.lp_shares(market, lp) < shares || shares > supply {
                Err(Error::InsufficientMarketTokens)
            } else {
                withdrawal_quote(
                    self.pool_amounts@[market],
                    supply,
                    shares,
                    self.oracle.prices@[m.long_token].spec_mid(),
                    self.oracle.prices@[m.short_token].spec_mid(),
                )
            }
        }
    }

    /// Burn `lp`'s shares of a market and pay out their pro-rata part of the pool's
    /// liquidity and of both fee buckets, in long and short tokens at mid prices; the
    /// pool is debited by exactly the USD amounts paid. Nothing changes on failure.
    pub fn remove_liquidity(
        &mut self,
        lp: AccountId,
        market_id: MarketId,
        market_token_amount: u128,
        min_long_out: u128,
        min_short_out: u128,
    ) -> (r: Result<(u128, u128), Error>)
        requires
            old(self).wf(),
        ensures
            final(self).wf(),
            r is Err ==> *final(self) == *old(self),
            match old(self).withdrawal_outcome(lp, market_id, market_token_amount as nat) {
                Err(e) => r == Err::<(u128, u128), Error>(e),
                Ok(q) => {
                    let pool = old(self).pool_amounts@[market_id];
                    let supply = old(self).market_tokens@[market_id].total_supply;
                    if q.long_out < min_long_out || q.short_out < min_short_out {
                        r == Err::<(u128, u128), Error>(Error::SlippageExceeded)
                    } else {
                        &&& r == Ok::<(u128, u128), Error>((q.long_out, q.short_out))
                        &&& final(self).pool_amounts@ == old(self).pool_amounts@.insert(
                            market_id,
                            PoolAmounts {
                                liquidity_usd: (pool.liquidity_usd - q.liquidity_usd) as u128,
                                claimable_fee_usd_long: (pool.claimable_fee_usd_long - q.fee_long_usd) as u128,
                                claimable_fee_usd_short: (pool.claimable_fee_usd_short - q.fee_short_usd) as u128,
                                ..pool
                            },
                        )
                        &&& final(self).market_tokens@[market_id].total_supply == supply - market_token_amount
                        &&& final(self).market_tokens@[market_id].balances@ == old(
                            self,
                        ).market_tokens@[market_id].balances@.insert(
                            lp,
                            (old(self).lp_shares(market_id, lp) - market_token_amount) as u128,
                        )
                        &&& final(self).other_shares_same(old(self), market_id)
                        &&& final(self).same_trading(old(self))
                    }
                },
            },
    {
        let market = match self.markets.get(&market_id) {
            Some(m) => *m,
            None => {
                return Err(Error::MarketNotFound);
            },
        };
        let long_price = match self.oracle.prices.get(&market.long_token) {
            Some(p) => p.mid(),
            None => {
                return Err(Error::PriceNotAvailable);
            },
        };
        let short_price = match self.oracle.prices.get(&market.short_token) {
            Some(p) => p.mid(),
            None => {
                return Err(Error::PriceNotAvailable);
            },
        };
        let pool = match self.pool_amounts.get(&market_id) {
            Some(p) => *p,
            None => {
                return Err(Error::MarketNotFound);
            },
        };
        let (supply, held) = match self.market_tokens.get(&market_id) {
            Some(t) => (
                t.total_supply,
                match t.balances.get(&lp) {
                    Some(b) => *b,
                    None => 0,
                },
            ),
            None => {
                return Err(Error::MarketNotFound);
            },
        };
        if supply == 0 {
            return Err(Error::InsufficientLiquidity);
        }
        if held < market_token_amount || market_token_amount > supply {
            return Err(Error::InsufficientMarketTokens);
        }
        let q = match quote_withdrawal(&pool, supply, market_token_amount, long_price, short_price) {
            Ok(v) => v,
            Err(e) => {
                return Err(e);
            },
        };
        if q.long_out < min_long_out || q.short_out < min_short_out {
            return Err(Error::SlippageExceeded);
        }
        let mut info = match self.market_tokens.remove(&market_id) {
            Some(t) => t,
            None => {
                return Err(Error::MarketNotFound);
            },
        };
        info.total_supply = supply - market_token_amount;
        info.balances.insert(lp, held - market_token_amount);
        self.market_tokens.insert(market_id, info);
        self.pool_amounts.insert(
            market_id,
            PoolAmounts {
                liquidity_usd: pool.liquidity_usd - q.liquidity_usd,
                claimable_fee_usd_long: pool.claimable_fee_usd_long - q.fee_long_usd,
                claimable_fee_usd_short: pool.claimable_fee_usd_short - q.fee_short_usd,
                ..pool
            },
        );
        proof {
            assert(self.market_tokens@.dom() =~= old(self).market_tokens@.dom().insert(market_id));
            assert(self.pool_amounts@.dom() =~= old(self).pool_amounts@.dom().insert(market_id));
            self.lemma_pool_update_wf(old(self), market_id);
        }
        Ok((q.long_out, q.short_out))
    }

    /// Positions, balances, orders, roles, markets, configurations and prices are as in `old`.
    pub open spec fn same_trading(&self, old: &Exchange) -> bool {
        &&& self.positions == old.positions
        &&& self.balances == old.balances
        &&& self.orders == old.orders
        &&& self.admin == old.admin
        &&& self.keepers == old.keepers
        &&& self.liquidators == old.liquidators
        &&& self.markets == old.markets
        &&& self.market_configs == old.market_configs
        &&& self.oracle == old.oracle
    }

    proof fn lemma_pool_update_wf(&self, old: &Exchange, market: MarketId)
        requires
            old.wf(),
            old.markets@.contains_key(market),
            self.pool_amounts@.dom() == old.pool_amounts@.dom().insert(market),
            self.pool_amounts@[market].funding_balanced(),
            forall|m: MarketId| m != market ==> #[trigger] self.pool_amounts@[m] == old.pool_amounts@[m],
            self.market_tokens@.dom() == old.market_tokens@.dom().insert(market),
            self.positions == old.positions,
            self.orders == old.orders,
            self.markets == old.markets,
            self.market_configs == old.market_configs,
        ensures
            self.wf(),
    {
        assert(self.pool_amounts@.dom() =~= old.pool_amounts@.dom());
        assert(self.market_tokens@.dom() =~= old.market_tokens@.dom());
        assert forall|m: MarketId| #[trigger] self.pool_amounts@.contains_key(m) implies self.pool_amounts@[
            m
        ].funding_balanced() by {
            if m != market {
                assert(old.pool_amounts@.contains_key(m));
            }
        }
    }
}

/// `v` without any occurrence of `a`.
fn without_account(v: &Vec<AccountId>, a: AccountId) -> (r: Vec<AccountId>)
    ensures
        forall|x: AccountId| r@.contains(x) <==> (v@.contains(x) && x != a),
{
    let mut out: Vec<AccountId> = Vec::new();
    let mut i: usize = 0;
    while i < v.len()
        invariant
            i <= v@.len(),
            forall|x: AccountId| out@.contains(x) <==> (exists|j: int| 0 <= j < i && #[trigger] v@[j] == x && x != a),
        decreases v@.len() - i,
    {
        let x = v[i];
        let ghost prev = out@;
        if x != a {
            out.push(x);
        }
        proof {
            assert forall|y: AccountId| out@.contains(y) <==> (exists|j: int|
                0 <= j < i + 1 && #[trigger] v@[j] == y && y != a) by {
                if out@.contains(y) {
                    let k = choose|k: int| 0 <= k < out@.len() && out@[k] == y;
                    if k < prev.len() {
                        assert(prev[k] == y);
                        assert(prev.contains(y));
                    } else {
                        assert(y == x && x != a);
                        assert(v@[i as int] == y);
                    }
                }
                if exists|j: int| 0 <= j < i + 1 && #[trigger] v@[j] == y && y != a {
                    let j = choose|j: int| 0 <= j < i + 1 && #[trigger] v@[j] == y && y != a;
                    if j == i {
                        assert(out@[out@.len() - 1] == y);
                    } else {
                        assert(prev.contains(y));
                        let k = choose|k: int| 0 <= k < prev.len() && prev[k] == y;
                        assert(out@[k] == y);
                    }
                }
            }
        }
        i = i + 1;
    }
    proof {
        assert forall|x: AccountId| v@.contains(x) && x != a implies out@.contains(x) by {
            let j = choose|j: int| 0 <= j < v@.len() && v@[j] == x;
            assert(v@[j] == x);
        }
    }
    out
}

impl Exchange {
    /// Grant the keeper role (admin only).
    pub fn add_keeper(&mut self, caller: AccountId, keeper: AccountId) -> (r: Result<(), Error>)
        requires
            old(self).wf(),
        ensures
            final(self).wf(),
            old(self).admin != caller ==> r == Err::<(), Error>(Error::Unauthorized) && *final(self)
                == *old(self),
            old(self).admin == caller ==> r is Ok && (forall|x: AccountId|
                final(self).keepers@.contains(x) <==> (old(self).keepers@.contains(x) || x == keeper))
                && final(self).liquidators == old(self).liquidators && final(self).pool_amounts
                == old(self).pool_amounts && final(self).positions == old(self).positions
                && final(self).balances == old(self).balances,
    {
        if self.admin != caller {
            return Err(Error::Unauthorized);
        }
        if !contains_account(&self.keepers, keeper) {
            self.keepers.push(keeper);
            proof {
                assert(self.keepers@.last() == keeper);
                assert forall|x: AccountId| self.keepers@.contains(x) <==> (old(self).keepers@.contains(x)
                    || x == keeper) by {
                    if self.keepers@.contains(x) && x != keeper {
                        let j = choose|j: int| 0 <= j < self.keepers@.len() && self.keepers@[j] == x;
                        assert(old(self).keepers@[j] == x);
                    }
                    if old(self).keepers@.contains(x) {
                        let j = choose|j: int| 0 <= j < old(self).keepers@.len() && old(self).keepers@[j] == x;
                        assert(self.keepers@[j] == x);
                    }
                }
            }
        }
        Ok(())
    }

    /// Revoke the keeper role (admin only).
    pub fn remove_keeper(&mut self, caller: AccountId, keeper: AccountId) -> (r: Result<(), Error>)
        requires
            old(self).wf(),
        ensures
            final(self).wf(),
            old(self).admin != caller ==> r == Err::<(), Error>(Error::Unauthorized) && *final(self)
                == *old(self),
            old(self).admin == caller ==> r is Ok && (forall|x: AccountId|
                final(self).keepers@.contains(x) <==> (old(self).keepers@.contains(x) && x != keeper))
                && final(self).liquidators == old(self).liquidators && final(self).pool_amounts
                == old(self).pool_amounts && final(self).positions == old(self).positions
                && final(self).balances == old(self).balances,
    {
        if self.admin != caller {
            return Err(Error::Unauthorized);
        }
        self.keepers = without_account(&self.keepers, keeper);
        Ok(())
    }

    /// Grant the liquidator role (admin only).
    pub fn add_liquidator(&mut self, caller: AccountId, liquidator: AccountId) -> (r: Result<(), Error>)
        requires
            old(self).wf(),
        ensures
            final(self).wf(),
            old(self).admin != caller ==> r == Err::<(), Error>(Error::Unauthorized) && *final(self)
                == *old(self),
            old(self).admin == caller ==> r is Ok && (forall|x: AccountId|
                final(self).liquidators@.contains(x) <==> (old(self).liquidators@.contains(x) || x
                    == liquidator)) && final(self).keepers == old(self).keepers && final(self).pool_amounts
                == old(self).pool_amounts && final(self).positions == old(self).positions
                && final(self).balances == old(self).balances,
    {
        if self.admin != caller {
            return Err(Error::Unauthorized);
        }
        if !contains_account(&self.liquidators, liquidator) {
            self.liquidators.push(liquidator);
            proof {
                assert(self.liquidators@.last() == liquidator);
                assert forall|x: AccountId| self.liquidators@.contains(x) <==> (old(
                    self,
                ).liquidators@.contains(x) || x == liquidator) by {
                    if self.liquidators@.contains(x) && x != liquidator {
                        let j = choose|j: int| 0 <= j < self.liquidators@.len() && self.liquidators@[j] == x;
                        assert(old(self).liquidators@[j] == x);
                    }
                    if old(self).liquidators@.contains(x) {
                        let j = choose|j: int|
                            0 <= j < old(self).liquidators@.len() && old(self).liquidators@[j] == x;
                        assert(self.liquidators@[j] == x);
                    }
                }
            }
        }
        Ok(())
    }

    /// Revoke the liquidator role (admin only).
    pub fn remove_liquidator(&mut self, caller: AccountId, liquidator: AccountId) -> (r: Result<(), Error>)
        requires
            old(self).wf(),
        ensures
            final(self).wf(),
            old(self).admin != caller ==> r == Err::<(), Error>(Error::Unauthorized) && *final(self)
                == *old(self),
            old(self).admin == caller ==> r is Ok && (forall|x: AccountId|
                final(self).liquidators@.contains(x) <==> (old(self).liquidators@.contains(x) && x
                    != liquidator)) && final(self).keepers == old(self).keepers && final(self).pool_amounts
                == old(self).pool_amounts && final(self).positions == old(self).positions
                && final(self).balances == old(self).balances,
    {
        if self.admin != caller {
            return Err(Error::Unauthorized);
        }
        self.liquidators = without_account(&self.liquidators, liquidator);
        Ok(())
    }
}

} // verus!
