use vstd::prelude::*;
use std::collections::HashMap;
use crate::keys::{position_key, position_key_of, same_key};
use crate::position::{
    Liquidation, PositionChange, PositionModule, decreased, fresh_position, increased, leverage_ok, liquidated, max_oi,
};
use crate::risk::side_index;
use crate::types::{
    AccountId, Error, Market, MarketConfig, MarketId, OracleConfig, Order, PoolAmounts, Position,
    PositionKey, Price, TokenId, Usd,
};

verus! {

broadcast use vstd::std_specs::hash::group_hash_axioms;

/// Liquidity-provider shares of one market.
#[derive(Debug)]
pub struct MarketTokenInfo {
    pub total_supply: u128,
    pub balances: HashMap<AccountId, u128>,
}

/// Last quote and its time for each token, as supplied by the price feed.
#[derive(Debug)]
pub struct OracleState {
    pub prices: HashMap<TokenId, Price>,
    pub timestamps: HashMap<TokenId, u64>,
    /// Who supplied each token's last price.
    pub last_signer: HashMap<TokenId, AccountId>,
    pub config: OracleConfig,
}

impl OracleState {
    /// No prices yet, with a maximum age of sixty seconds.
    pub fn new() -> (r: OracleState)
        ensures
            r.prices@.is_empty(),
            r.timestamps@.is_empty(),
            r.last_signer@.is_empty(),
            r.config.max_age_seconds == 60,
    {
        OracleState {
            prices: HashMap::new(),
            timestamps: HashMap::new(),
            last_signer: HashMap::new(),
            config: OracleConfig { max_age_seconds: 60 },
        }
    }

    /// No prices yet, with the given configuration.
    pub fn with_config(config: OracleConfig) -> (r: OracleState)
        ensures
            r.prices@.is_empty(),
            r.timestamps@.is_empty(),
            r.last_signer@.is_empty(),
            r.config == config,
    {
        OracleState { prices: HashMap::new(), timestamps: HashMap::new(), last_signer: HashMap::new(), config }
    }
}

/// The whole ledger: markets, pools, positions, orders, balances and prices.
#[derive(Debug)]
pub struct Exchange {
    pub admin: AccountId,
    pub keepers: Vec<AccountId>,
    pub liquidators: Vec<AccountId>,
    pub markets: HashMap<MarketId, Market>,
    pub market_configs: HashMap<MarketId, MarketConfig>,
    pub pool_amounts: HashMap<MarketId, PoolAmounts>,
    pub market_tokens: HashMap<MarketId, MarketTokenInfo>,
    pub positions: Vec<Position>,
    pub orders: Vec<Order>,
    pub balances: HashMap<AccountId, Usd>,
    pub oracle: OracleState,
}

/// The amount recorded for `a`, zero when none is.
pub open spec fn amount_in(m: Map<u64, u128>, a: u64) -> nat {
    if m.contains_key(a) {
        m[a] as nat
    } else {
        0
    }
}

/// `m` with `v` added to the amount of `a`.
pub open spec fn credited(m: Map<u64, u128>, a: u64, v: nat) -> Map<u64, u128> {
    m.insert(a, (amount_in(m, a) + v) as u128)
}

/// Whether `v` can be added to the amount of `a` without overflow.
pub open spec fn can_credit(m: Map<u64, u128>, a: u64, v: nat) -> bool {
    amount_in(m, a) + v <= u128::MAX
}

/// Whether `a` appears in `v`.
pub fn contains_account(v: &Vec<AccountId>, a: AccountId) -> (r: bool)
    ensures
        r == v@.contains(a),
{
    let mut i: usize = 0;
    while i < v.len()
        invariant
            i <= v@.len(),
            forall|j: int| 0 <= j < i ==> v@[j] != a,
        decreases v@.len() - i,
    {
        if v[i] == a {
            assert(v@[i as int] == a);
            return true;
        }
        i = i + 1;
    }
    false
}

/// No two positions share a key.
pub open spec fn keys_distinct(s: Seq<Position>) -> bool {
    forall|i: int, j: int|
        0 <= i < s.len() && 0 <= j < s.len() && i != j ==> #[trigger] s[i].key != #[trigger] s[j].key
}

/// The position stored under key `k`, if any.
pub open spec fn find_position(s: Seq<Position>, k: PositionKey) -> Option<Position> {
    if exists|i: int| 0 <= i < s.len() && #[trigger] s[i].key == k {
        Some(s[choose|i: int| 0 <= i < s.len() && #[trigger] s[i].key == k])
    } else {
        None
    }
}

/// Whether `p` belongs to `account` in `market` with `collateral_token` on that side.
pub open spec fn owned_by(
    p: Position,
    account: AccountId,
    market: MarketId,
    collateral_token: TokenId,
    is_long: bool,
) -> bool {
    p.account == account && p.market == market && p.collateral_token == collateral_token && p.is_long
        == is_long
}

/// Every stored position sits under the key of its own owner, market, collateral token
/// and side, and has a positive size.
pub open spec fn positions_keyed(s: Seq<Position>) -> bool {
    forall|i: int|
        0 <= i < s.len() ==> (#[trigger] s[i]).key == position_key_of(
            s[i].account,
            s[i].market,
            s[i].collateral_token,
            s[i].is_long,
        ) && s[i].size_usd > 0
}

/// The position table as a map from key to position.
pub open spec fn position_map(s: Seq<Position>) -> Map<PositionKey, Position> {
    Map::new(|k: PositionKey| find_position(s, k) is Some, |k: PositionKey| find_position(s, k)->Some_0)
}

/// Settling fees keeps who and what a position is.
pub proof fn lemma_settlement_fields(p: Position, pool: PoolAmounts, cfg: MarketConfig, now: u64)
    ensures
        crate::risk::settled(p, pool, cfg, now) is Ok ==> ({
            let q = crate::risk::settled(p, pool, cfg, now)->Ok_0.position;
            &&& q.key == p.key && q.account == p.account && q.market == p.market
            &&& q.collateral_token == p.collateral_token && q.is_long == p.is_long
            &&& q.size_usd == p.size_usd
        }),
{
}

pub proof fn lemma_find_at(s: Seq<Position>, i: int)
    requires
        keys_distinct(s),
        0 <= i < s.len(),
    ensures
        find_position(s, s[i].key) == Some(s[i]),
{
    let k = s[i].key;
    assert(exists|j: int| 0 <= j < s.len() && #[trigger] s[j].key == k);
    let j = choose|j: int| 0 <= j < s.len() && #[trigger] s[j].key == k;
    assert(j == i);
}

pub proof fn lemma_map_update(s: Seq<Position>, i: int, p: Position)
    requires
        keys_distinct(s),
        0 <= i < s.len(),
        p.key == s[i].key,
    ensures
        keys_distinct(s.update(i, p)),
        position_map(s.update(i, p)) == position_map(s).insert(p.key, p),
{
    let t = s.update(i, p);
    assert(keys_distinct(t)) by {
        assert forall|a: int, b: int| 0 <= a < t.len() && 0 <= b < t.len() && a != b implies #[trigger] t[a].key
            != #[trigger] t[b].key by {
            assert(t[a].key == s[a].key && t[b].key == s[b].key);
        }
    }
    assert forall|k: PositionKey| find_position(t, k) == (if k == p.key {
        Some(p)
    } else {
        find_position(s, k)
    }) by {
        if k == p.key {
            lemma_find_at(t, i);
        } else {
            if exists|j: int| 0 <= j < s.len() && #[trigger] s[j].key == k {
                let j = choose|j: int| 0 <= j < s.len() && #[trigger] s[j].key == k;
                lemma_find_at(s, j);
                lemma_find_at(t, j);
            } else {
                assert(!exists|j: int| 0 <= j < t.len() && #[trigger] t[j].key == k);
            }
        }
    }
    assert(position_map(t) =~= position_map(s).insert(p.key, p));
}

pub proof fn lemma_map_push(s: Seq<Position>, p: Position)
    requires
        keys_distinct(s),
        find_position(s, p.key) is None,
    ensures
        keys_distinct(s.push(p)),
        position_map(s.push(p)) == position_map(s).insert(p.key, p),
{
    let t = s.push(p);
    assert(forall|j: int| 0 <= j < s.len() ==> #[trigger] s[j].key != p.key);
    assert(keys_distinct(t)) by {
        assert forall|a: int, b: int| 0 <= a < t.len() && 0 <= b < t.len() && a != b implies #[trigger] t[a].key
            != #[trigger] t[b].key by {
            if a < s.len() && b < s.len() {
                assert(t[a] == s[a] && t[b] == s[b]);
            }
        }
    }
    assert forall|k: PositionKey| find_position(t, k) == (if k == p.key {
        Some(p)
    } else {
        find_position(s, k)
    }) by {
        if k == p.key {
            lemma_find_at(t, s.len() as int);
        } else {
            if exists|j: int| 0 <= j < s.len() && #[trigger] s[j].key == k {
                let j = choose|j: int| 0 <= j < s.len() && #[trigger] s[j].key == k;
                lemma_find_at(s, j);
                assert(t[j] == s[j]);
                lemma_find_at(t, j);
            } else {
                assert forall|j: int| 0 <= j < t.len() implies #[trigger] t[j].key != k by {
                    if j < s.len() {
                        assert(t[j] == s[j]);
                    }
                }
            }
        }
    }
    assert(position_map(t) =~= position_map(s).insert(p.key, p));
}

pub proof fn lemma_map_remove(s: Seq<Position>, i: int)
    requires
        keys_distinct(s),
        0 <= i < s.len(),
    ensures
        keys_distinct(s.remove(i)),
        position_map(s.remove(i)) == position_map(s).remove(s[i].key),
{
    let t = s.remove(i);
    let gone = s[i].key;
    assert forall|j: int| 0 <= j < t.len() implies #[trigger] t[j] == (if j < i {
        s[j]
    } else {
        s[j + 1]
    }) by {}
    assert(keys_distinct(t)) by {
        assert forall|a: int, b: int| 0 <= a < t.len() && 0 <= b < t.len() && a != b implies #[trigger] t[a].key
            != #[trigger] t[b].key by {
            let sa = if a < i {
                a
            } else {
                a + 1
            };
            let sb = if b < i {
                b
            } else {
                b + 1
            };
            assert(t[a] == s[sa] && t[b] == s[sb]);
        }
    }
    assert forall|k: PositionKey| find_position(t, k) == (if k == gone {
        None
    } else {
        find_position(s, k)
    }) by {
        if exists|j: int| 0 <= j < t.len() && #[trigger] t[j].key == k {
            let j = choose|j: int| 0 <= j < t.len() && #[trigger] t[j].key == k;
            let sj = if j < i {
                j
            } else {
                j + 1
            };
            assert(t[j] == s[sj]);
            assert(sj != i);
            lemma_find_at(s, sj);
            lemma_find_at(t, j);
        } else {
            if k != gone && exists|j: int| 0 <= j < s.len() && #[trigger] s[j].key == k {
                let j = choose|j: int| 0 <= j < s.len() && #[trigger] s[j].key == k;
                assert(j != i);
                let tj = if j < i {
                    j
                } else {
                    j - 1
                };
                assert(t[tj] == s[j]);
            }
        }
    }
    assert(position_map(t) =~= position_map(s).remove(gone));
}

impl Exchange {
    /// Invariant of the ledger.
    pub open spec fn wf(&self) -> bool {
        &&& keys_distinct(self.positions@)
        &&& positions_keyed(self.positions@)
        &&& forall|i: int| 0 <= i < self.orders@.len() ==> #[trigger] self.orders@[i].key == i + 1
        &&& self.orders@.len() < u64::MAX
        &&& forall|m: MarketId| #[trigger]
            self.pool_amounts@.contains_key(m) ==> self.pool_amounts@[m].funding_balanced()
        &&& self.markets@.dom() == self.market_configs@.dom()
        &&& self.markets@.dom() == self.pool_amounts@.dom()
        &&& self.markets@.dom() == self.market_tokens@.dom()
    }

    /// Positions by key.
    pub open spec fn position_view(&self) -> Map<PositionKey, Position> {
        position_map(self.positions@)
    }

    /// Roles, markets, their configurations and shares, and prices are as in `other`.
    pub open spec fn same_markets(&self, other: &Exchange) -> bool {
        &&& self.admin == other.admin
        &&& self.keepers == other.keepers
        &&& self.liquidators == other.liquidators
        &&& self.markets == other.markets
        &&& self.market_configs == other.market_configs
        &&& self.market_tokens == other.market_tokens
        &&& self.oracle == other.oracle
    }

    /// Everything but pools, positions and balances is as in `other`.
    pub open spec fn same_setup(&self, other: &Exchange) -> bool {
        &&& self.same_markets(other)
        &&& self.orders == other.orders
    }

    /// This ledger is `old` with position change `c` stored for `account` in `market`
    /// under `key`.
    pub open spec fn applied(
        &self,
        old: &Exchange,
        market: MarketId,
        account: AccountId,
        key: PositionKey,
        c: PositionChange,
    ) -> bool {
        &&& self.pool_amounts@ == old.pool_amounts@.insert(market, c.pool)
        &&& self.balances@ == old.balances@.insert(account, c.balance)
        &&& self.position_view() == match c.position {
            Some(p) => old.position_view().insert(key, p),
            None => old.position_view().remove(key),
        }
    }

    /// Outcome of increasing (or opening) a position against `pool`.
    pub open spec fn increase_outcome(
        &self,
        pool: PoolAmounts,
        account: AccountId,
        market: MarketId,
        collateral_token: TokenId,
        is_long: bool,
        size_delta: nat,
        collateral_delta: nat,
        price: u128,
        now: u64,
    ) -> Result<PositionChange, Error> {
        let key = position_key_of(account, market, collateral_token, is_long);
        let existing = find_position(self.positions@, key);
        if existing is Some && !owned_by(existing->Some_0, account, market, collateral_token, is_long) {
            Err(Error::PositionKeyCollision)
        } else {
            increased(
            existing,
            fresh_position(key, account, market, collateral_token, is_long, price, pool, now),
            pool,
            self.market_configs@[market],
            amount_in(self.balances@, account),
            size_delta,
            collateral_delta,
            price as nat,
            now,
        )
        }
    }

    /// Outcome of decreasing a position against `pool`.
    pub open spec fn decrease_outcome(
        &self,
        pool: PoolAmounts,
        account: AccountId,
        market: MarketId,
        collateral_token: TokenId,
        is_long: bool,
        size_delta: nat,
        collateral_delta: nat,
        price: nat,
        now: u64,
    ) -> Result<PositionChange, Error> {
        let key = position_key_of(account, market, collateral_token, is_long);
        match find_position(self.positions@, key) {
            None => Err(Error::PositionNotFound),
            Some(p) => if !owned_by(p, account, market, collateral_token, is_long) {
                Err(Error::PositionKeyCollision)
            } else {
                decreased(
                p,
                pool,
                self.market_configs@[market],
                amount_in(self.balances@, account),
                size_delta,
                collateral_delta,
                price,
                now,
            )
            },
        }
    }

    /// An empty ledger administered by `admin`.
    pub fn new(admin: AccountId) -> (r: Exchange)
        ensures
            r.wf(),
            r.admin == admin,
            r.markets@.is_empty(),
            r.market_configs@.is_empty(),
            r.pool_amounts@.is_empty(),
            r.market_tokens@.is_empty(),
            r.positions@.len() == 0,
            r.orders@.len() == 0,
            r.balances@.is_empty(),
            r.keepers@.len() == 0,
            r.liquidators@.len() == 0,
            r.oracle.prices@.is_empty(),
            r.oracle.timestamps@.is_empty(),
            r.oracle.config.max_age_seconds == 60,
    {
        Exchange {
            admin,
            keepers: Vec::new(),
            liquidators: Vec::new(),
            markets: HashMap::new(),
            market_configs: HashMap::new(),
            pool_amounts: HashMap::new(),
            market_tokens: HashMap::new(),
            positions: Vec::new(),
            orders: Vec::new(),
            balances: HashMap::new(),
            oracle: OracleState::new(),
        }
    }

    /// Balance of an account, zero when it has none.
    pub fn balance_of(&self, account: AccountId) -> (r: Usd)
        ensures
            r == amount_in(self.balances@, account),
    {
        match self.balances.get(&account) {
            Some(b) => *b,
            None => 0,
        }
    }

    /// Index of the position stored under `key`.
    fn find_position_index(&self, key: &PositionKey) -> (r: Option<usize>)
        requires
            keys_distinct(self.positions@),
        ensures
            match r {
                Some(i) => i < self.positions@.len() && self.positions@[i as int].key == *key
                    && find_position(self.positions@, *key) == Some(self.positions@[i as int]),
                None => find_position(self.positions@, *key) is None,
            },
    {
        let mut i: usize = 0;
        while i < self.positions.len()
            invariant
                i <= self.positions@.len(),
                keys_distinct(self.positions@),
                forall|j: int| 0 <= j < i ==> #[trigger] self.positions@[j].key != *key,
            decreases self.positions@.len() - i,
        {
            if same_key(&self.positions[i].key, key) {
                proof {
                    lemma_find_at(self.positions@, i as int);
                }
                return Some(i);
            }
            i = i + 1;
        }
        None
    }

    /// The position stored under `key`.
    pub fn get_position(&self, key: &PositionKey) -> (r: Result<Position, Error>)
        requires
            self.wf(),
        ensures
            match find_position(self.positions@, *key) {
                Some(p) => r == Ok::<Position, Error>(p),
                None => r == Err::<Position, Error>(Error::PositionNotFound),
            },
    {
        match self.find_position_index(key) {
            Some(i) => Ok(self.positions[i]),
            None => Err(Error::PositionNotFound),
        }
    }

    /// Stage an increase against `pool` without storing it.
    pub(crate) fn stage_increase(
        &self,
        pool: &PoolAmounts,
        account: AccountId,
        market: MarketId,
        collateral_token: TokenId,
        is_long: bool,
        size_delta_usd: u128,
        collateral_delta_usd: u128,
        execution_price_usd: u128,
        now: u64,
    ) -> (r: Result<(PositionKey, PositionChange), Error>)
        requires
            self.wf(),
            self.markets@.contains_key(market),
        ensures
            match self.increase_outcome(
                *pool,
                account,
                market,
                collateral_token,
                is_long,
                size_delta_usd as nat,
                collateral_delta_usd as nat,
                execution_price_usd,
                now,
            ) {
                Err(e) => r == Err::<(PositionKey, PositionChange), Error>(e),
                Ok(c) => r == Ok::<(PositionKey, PositionChange), Error>(
                    (position_key_of(account, market, collateral_token, is_long), c),
                ),
            },
            r is Ok ==> r->Ok_0.1.position is Some && r->Ok_0.1.position->Some_0.key == r->Ok_0.0,
            r is Ok ==> r->Ok_0.1.pool.accumulated_funding_long_per_usd == pool.accumulated_funding_long_per_usd
                && r->Ok_0.1.pool.accumulated_funding_short_per_usd == pool.accumulated_funding_short_per_usd,
            r is Ok ==> leverage_ok(
                r->Ok_0.1.position->Some_0.size_usd as nat,
                r->Ok_0.1.position->Some_0.collateral_usd as nat,
                self.market_configs@[market].max_leverage as nat,
            ),
            r is Ok ==> r->Ok_0.1.pool.side_oi(r->Ok_0.1.position->Some_0.is_long) <= max_oi(
                self.market_configs@[market],
                r->Ok_0.1.position->Some_0.is_long,
            ),
            r is Ok ==> ({
                let c = r->Ok_0.1;
                let p = c.position->Some_0;
                let before = find_position(self.positions@, r->Ok_0.0);
                &&& owned_by(p, account, market, collateral_token, is_long)
                &&& p.size_usd > 0 && p.collateral_usd > 0
                &&& p.size_usd == match before {
                    Some(b) => b.size_usd as nat,
                    None => 0,
                } + size_delta_usd
                &&& c.balance == amount_in(self.balances@, account) - collateral_delta_usd
                &&& c.pool.side_oi(is_long) == pool.side_oi(is_long) + size_delta_usd
                &&& c.pool.side_oi(!is_long) == pool.side_oi(!is_long)
                &&& c.pool.liquidity_usd == pool.liquidity_usd
                &&& c.pool.side_oi(is_long) <= pool.liquidity_usd * (
                self.market_configs@[market].reserve_factor_bps as nat) / 10_000
            }),
    {
        let cfg = match self.market_configs.get(&market) {
            Some(c) => *c,
            None => {
                return Err(Error::MarketNotFound);
            },
        };
        let key = position_key(account, market, collateral_token, is_long);
        let existing = match self.find_position_index(&key) {
            Some(i) => {
                let p = self.positions[i];
                if !(p.account == account && p.market == market && p.collateral_token == collateral_token
                    && p.is_long == is_long) {
                    return Err(Error::PositionKeyCollision);
                }
                proof {
                    lemma_settlement_fields(p, *pool, self.market_configs@[market], now);
                }
                Some(p)
            },
            None => None,
        };
        let fresh = Position {
            key,
            account,
            market,
            collateral_token,
            is_long,
            size_usd: 0,
            collateral_usd: 0,
            entry_price_usd: execution_price_usd,
            liquidation_price_usd: 0,
            funding_fee_per_usd: if is_long {
                pool.accumulated_funding_long_per_usd
            } else {
                pool.accumulated_funding_short_per_usd
            },
            last_fee_update: now,
        };
        let balance = self.balance_of(account);
        proof {
            crate::position::lemma_change_keeps_indices(
                existing,
                fresh,
                *pool,
                cfg,
                balance as nat,
                size_delta_usd as nat,
                collateral_delta_usd as nat,
                execution_price_usd as nat,
                now,
            );
        }
        match PositionModule::increase_position(
            existing,
            fresh,
            pool,
            &cfg,
            balance,
            size_delta_usd,
            collateral_delta_usd,
            execution_price_usd,
            now,
        ) {
            Ok(c) => Ok((key, c)),
            Err(e) => Err(e),
        }
    }

    /// Stage a decrease against `pool` without storing it.
    pub(crate) fn stage_decrease(
        &self,
        pool: &PoolAmounts,
        account: AccountId,
        market: MarketId,
        collateral_token: TokenId,
        is_long: bool,
        size_delta_usd: u128,
        collateral_delta_usd: u128,
        execution_price_usd: u128,
        now: u64,
    ) -> (r: Result<(PositionKey, PositionChange), Error>)
        requires
            self.wf(),
            self.markets@.contains_key(market),
        ensures
            match self.decrease_outcome(
                *pool,
                account,
                market,
                collateral_token,
                is_long,
                size_delta_usd as nat,
                collateral_delta_usd as nat,
                execution_price_usd as nat,
                now,
            ) {
                Err(e) => r == Err::<(PositionKey, PositionChange), Error>(e),
                Ok(c) => r == Ok::<(PositionKey, PositionChange), Error>(
                    (position_key_of(account, market, collateral_token, is_long), c),
                ),
            },
            r is Ok ==> (r->Ok_0.1.position is Some ==> r->Ok_0.1.position->Some_0.key == r->Ok_0.0
                && owned_by(r->Ok_0.1.position->Some_0, account, market, collateral_token, is_long)
                && r->Ok_0.1.position->Some_0.size_usd > 0),
            r is Ok ==> r->Ok_0.1.pool.accumulated_funding_long_per_usd == pool.accumulated_funding_long_per_usd
                && r->Ok_0.1.pool.accumulated_funding_short_per_usd == pool.accumulated_funding_short_per_usd,
    {
        let cfg = match self.market_configs.get(&market) {
            Some(c) => *c,
            None => {
                return Err(Error::MarketNotFound);
            },
        };
        let key = position_key(account, market, collateral_token, is_long);
        let pos = match self.find_position_index(&key) {
            Some(i) => self.positions[i],
            None => {
                return Err(Error::PositionNotFound);
            },
        };
        if !(pos.account == account && pos.market == market && pos.collateral_token == collateral_token
            && pos.is_long == is_long) {
            return Err(Error::PositionKeyCollision);
        }
        let balance = self.balance_of(account);
        proof {
            crate::position::lemma_change_keeps_indices(
                Some(pos),
                pos,
                *pool,
                cfg,
                balance as nat,
                size_delta_usd as nat,
                collateral_delta_usd as nat,
                execution_price_usd as nat,
                now,
            );
        }
        match PositionModule::decrease_position(
            &pos,
            pool,
            &cfg,
            balance,
            size_delta_usd,
            collateral_delta_usd,
            execution_price_usd,
            now,
        ) {
            Ok(c) => Ok((key, c)),
            Err(e) => Err(e),
        }
    }

    /// Increase (or open) the position of `account` in `market` at `execution_price_usd`,
    /// settling its fees first; see `increase_outcome`. Nothing changes on failure.
    pub fn increase_position(
        &mut self,
        account: AccountId,
        market: MarketId,
        collateral_token: TokenId,
        is_long: bool,
        size_delta_usd: u128,
        collateral_delta_usd: u128,
        execution_price_usd: u128,
        now: u64,
    ) -> (r: Result<PositionKey, Error>)
        requires
            old(self).wf(),
        ensures
            final(self).wf(),
            !old(self).markets@.contains_key(market) ==> r == Err::<PositionKey, Error>(
                Error::MarketNotFound,
            ),
            r is Err ==> *final(self) == *old(self),
            old(self).markets@.contains_key(market) ==> match old(self).increase_outcome(
                old(self).pool_amounts@[market],
                account,
                market,
                collateral_token,
                is_long,
                size_delta_usd as nat,
                collateral_delta_usd as nat,
                execution_price_usd,
                now,
            ) {
                Err(e) => r == Err::<PositionKey, Error>(e),
                Ok(c) => {
                    &&& r == Ok::<PositionKey, Error>(position_key_of(account, market, collateral_token, is_long))
                    &&& final(self).applied(old(self), market, account, r->Ok_0, c)
                    &&& final(self).same_setup(old(self))
                },
            },
            r is Ok ==> final(self).position_view().contains_key(r->Ok_0) && leverage_ok(
                final(self).position_view()[r->Ok_0].size_usd as nat,
                final(self).position_view()[r->Ok_0].collateral_usd as nat,
                final(self).market_configs@[market].max_leverage as nat,
            ),
            r is Ok ==> final(self).pool_amounts@[market].side_oi(final(self).position_view()[r->Ok_0].is_long)
                <= max_oi(final(self).market_configs@[market], final(self).position_view()[r->Ok_0].is_long),
            r is Ok ==> ({
                let p = final(self).position_view()[r->Ok_0];
                let old_pool = old(self).pool_amounts@[market];
                let new_pool = final(self).pool_amounts@[market];
                &&& owned_by(p, account, market, collateral_token, is_long)
                &&& p.size_usd > 0 && p.collateral_usd > 0
                &&& p.size_usd == (if old(self).position_view().contains_key(r->Ok_0) {
                    old(self).position_view()[r->Ok_0].size_usd as nat
                } else {
                    0
                }) + size_delta_usd
                &&& amount_in(final(self).balances@, account) == amount_in(old(self).balances@, account)
                    - collateral_delta_usd
                &&& new_pool.side_oi(is_long) == old_pool.side_oi(is_long) + size_delta_usd
                &&& new_pool.side_oi(!is_long) == old_pool.side_oi(!is_long)
                &&& new_pool.side_oi(is_long) <= new_pool.liquidity_usd * (
                final(self).market_configs@[market].reserve_factor_bps as nat) / 10_000
            }),
    {
        let pool = match self.pool_amounts.get(&market) {
            Some(p) => *p,
            None => {
                return Err(Error::MarketNotFound);
            },
        };
        let (key, change) = match self.stage_increase(
            &pool,
            account,
            market,
            collateral_token,
            is_long,
            size_delta_usd,
            collateral_delta_usd,
            execution_price_usd,
            now,
        ) {
            Ok(v) => v,
            Err(e) => {
                return Err(e);
            },
        };
        self.commit_change(market, account, key, change);
        Ok(key)
    }

    /// Decrease the position of `account` in `market` at `execution_price_usd`, settling
    /// its fees first; see `decrease_outcome`. Nothing changes on failure.
    pub fn decrease_position(
        &mut self,
        account: AccountId,
        market: MarketId,
        collateral_token: TokenId,
        is_long: bool,
        size_delta_usd: u128,
        collateral_delta_usd: u128,
        execution_price_usd: u128,
        now: u64,
    ) -> (r: Result<PositionKey, Error>)
        requires
            old(self).wf(),
        ensures
            final(self).wf(),
            !old(self).markets@.contains_key(market) ==> r == Err::<PositionKey, Error>(
                Error::MarketNotFound,
            ),
            r is Err ==> *final(self) == *old(self),
            old(self).markets@.contains_key(market) ==> match old(self).decrease_outcome(
                old(self).pool_amounts@[market],
                account,
                market,
                collateral_token,
                is_long,
                size_delta_usd as nat,
                collateral_delta_usd as nat,
                execution_price_usd as nat,
                now,
            ) {
                Err(e) => r == Err::<PositionKey, Error>(e),
                Ok(c) => {
                    &&& r == Ok::<PositionKey, Error>(position_key_of(account, market, collateral_token, is_long))
                    &&& final(self).applied(old(self), market, account, r->Ok_0, c)
                    &&& final(self).same_setup(old(self))
                },
            },
    {
        let pool = match self.pool_amounts.get(&market) {
            Some(p) => *p,
            None => {
                return Err(Error::MarketNotFound);
            },
        };
        let (key, change) = match self.stage_decrease(
            &pool,
            account,
            market,
            collateral_token,
            is_long,
            size_delta_usd,
            collateral_delta_usd,
            execution_price_usd,
            now,
        ) {
            Ok(v) => v,
            Err(e) => {
                return Err(e);
            },
        };
        self.commit_change(market, account, key, change);
        Ok(key)
    }

    /// Whether `actor` is a keeper.
    pub fn is_keeper(&self, actor: AccountId) -> (r: bool)
        ensures
            r == self.keepers@.contains(actor),
    {
        contains_account(&self.keepers, actor)
    }

    /// Whether `actor` may liquidate.
    pub fn is_liquidator(&self, actor: AccountId) -> (r: bool)
        ensures
            r == self.liquidators@.contains(actor),
    {
        contains_account(&self.liquidators, actor)
    }

    /// Whether `actor` administers the ledger.
    pub fn is_admin(&self, actor: AccountId) -> (r: bool)
        ensures
            r == (self.admin == actor),
    {
        self.admin == actor
    }

    /// Outcome of a liquidation by `liquidator` of the position under `key`.
    pub open spec fn liquidation_outcome(
        &self,
        liquidator: AccountId,
        key: PositionKey,
        price: nat,
        fee_bps: nat,
        now: u64,
    ) -> Result<Liquidation, Error> {
        if !(self.keepers@.contains(liquidator) || self.liquidators@.contains(liquidator)) {
            Err(Error::NotLiquidator)
        } else {
            match find_position(self.positions@, key) {
                None => Err(Error::PositionNotFound),
                Some(p) => if !self.markets@.contains_key(p.market) {
                    Err(Error::MarketNotFound)
                } else {
                    liquidated(
                        p,
                        self.pool_amounts@[p.market],
                        self.market_configs@[p.market],
                        price,
                        fee_bps,
                        now,
                    )
                },
            }
        }
    }

    /// Liquidate the position under `position_key` at `execution_price_usd` on behalf of a
    /// keeper or liquidator: its fees are settled, it must then be at or below its
    /// liquidation threshold, the liquidator receives `liquidation_fee_bps` of its
    /// collateral, the owner the rest plus PnL (never below zero), and it is removed.
    /// Returns the key and the fee paid. Nothing changes on failure.
    pub fn liquidate_position(
        &mut self,
        liquidator: AccountId,
        position_key: PositionKey,
        execution_price_usd: u128,
        liquidation_fee_bps: u16,
        now: u64,
    ) -> (r: Result<(PositionKey, u128), Error>)
        requires
            old(self).wf(),
        ensures
            final(self).wf(),
            r is Err ==> *final(self) == *old(self),
            match old(self).liquidation_outcome(
                liquidator,
                position_key,
                execution_price_usd as nat,
                liquidation_fee_bps as nat,
                now,
            ) {
                Err(e) => r == Err::<(PositionKey, u128), Error>(e),
                Ok(l) => {
                    let p = find_position(old(self).positions@, position_key)->Some_0;
                    let b1 = credited(old(self).balances@, liquidator, l.fee as nat);
                    if !can_credit(old(self).balances@, liquidator, l.fee as nat) || !can_credit(
                        b1,
                        p.account,
                        l.owner_payout as nat,
                    ) {
                        r == Err::<(PositionKey, u128), Error>(Error::MathOverflow)
                    } else {
                        &&& r == Ok::<(PositionKey, u128), Error>((position_key, l.fee))
                        &&& final(self).pool_amounts@ == old(self).pool_amounts@.insert(p.market, l.pool)
                        &&& final(self).balances@ == credited(b1, p.account, l.owner_payout as nat)
                        &&& final(self).position_view() == old(self).position_view().remove(position_key)
                        &&& final(self).same_setup(old(self))
                    }
                },
            },
    {
        if !self.is_keeper(liquidator) && !self.is_liquidator(liquidator) {
            return Err(Error::NotLiquidator);
        }
        let idx = match self.find_position_index(&position_key) {
            Some(i) => i,
            None => {
                return Err(Error::PositionNotFound);
            },
        };
        let pos = self.positions[idx];
        let cfg = match self.market_configs.get(&pos.market) {
            Some(c) => *c,
            None => {
                return Err(Error::MarketNotFound);
            },
        };
        let pool = match self.pool_amounts.get(&pos.market) {
            Some(p) => *p,
            None => {
                return Err(Error::MarketNotFound);
            },
        };
        let l = match PositionModule::liquidate_position(
            &pos,
            &pool,
            &cfg,
            execution_price_usd,
            liquidation_fee_bps,
            now,
        ) {
            Ok(v) => v,
            Err(e) => {
                return Err(e);
            },
        };
        let liq_balance = self.balance_of(liquidator);
        if liq_balance > u128::MAX - l.fee {
            return Err(Error::MathOverflow);
        }
        let owner_balance = if pos.account == liquidator {
            liq_balance + l.fee
        } else {
            self.balance_of(pos.account)
        };
        if owner_balance > u128::MAX - l.owner_payout {
            return Err(Error::MathOverflow);
        }
        proof {
            crate::position::lemma_liquidation_keeps_indices(
                pos,
                pool,
                cfg,
                execution_price_usd as nat,
                liquidation_fee_bps as nat,
                now,
            );
        }
        self.balances.insert(liquidator, liq_balance + l.fee);
        self.commit_change(
            pos.market,
            pos.account,
            position_key,
            PositionChange {
                position: None,
                pool: l.pool,
                balance: owner_balance + l.owner_payout,
                payout: l.owner_payout,
                realized_pnl: l.realized_pnl,
            },
        );
        Ok((position_key, l.fee))
    }

    /// Store a position change for `account` in `market`: the pool, the balance, and the
    /// position under `key` (removed when the change closed it).
    pub(crate) fn commit_change(&mut self, market: MarketId, account: AccountId, key: PositionKey, change: PositionChange)
        requires
            old(self).wf(),
            old(self).pool_amounts@.contains_key(market),
            change.pool.funding_balanced(),
            change.position is Some ==> change.position->Some_0.key == key,
            change.position is Some ==> change.position->Some_0.size_usd > 0 && key == position_key_of(
                change.position->Some_0.account,
                change.position->Some_0.market,
                change.position->Some_0.collateral_token,
                change.position->Some_0.is_long,
            ),
        ensures
            final(self).wf(),
            final(self).same_setup(old(self)),
            final(self).pool_amounts@ == old(self).pool_amounts@.insert(market, change.pool),
            final(self).balances@ == old(self).balances@.insert(account, change.balance),
            final(self).position_view() == match change.position {
                Some(p) => old(self).position_view().insert(key, p),
                None => old(self).position_view().remove(key),
            },
    {
        self.pool_amounts.insert(market, change.pool);
        self.balances.insert(account, change.balance);
        let idx = self.find_position_index(&key);
        match change.position {
            Some(p) => match idx {
                Some(i) => {
                    proof {
                        lemma_map_update(self.positions@, i as int, p);
                    }
                    let ghost before = self.positions@;
                    self.positions.set(i, p);
                    proof {
                        assert forall|j: int| 0 <= j < self.positions@.len() implies #[trigger] self.positions@[j]
                            == (if j == i {
                            p
                        } else {
                            before[j]
                        }) by {}
                    }
                },
                None => {
                    proof {
                        lemma_map_push(self.positions@, p);
                    }
                    let ghost before = self.positions@;
                    self.positions.push(p);
                    proof {
                        assert forall|j: int| 0 <= j < self.positions@.len() implies #[trigger] self.positions@[j]
                            == (if j == before.len() {
                            p
                        } else {
                            before[j]
                        }) by {}
                    }
                },
            },
            None => match idx {
                Some(i) => {
                    proof {
                        lemma_map_remove(self.positions@, i as int);
                    }
                    let ghost before = self.positions@;
                    self.positions.remove(i);
                    proof {
                        assert forall|j: int| 0 <= j < self.positions@.len() implies #[trigger] self.positions@[j]
                            == (if j < i {
                            before[j]
                        } else {
                            before[j + 1]
                        }) by {}
                    }
                },
                None => {
                    proof {
                        assert(position_map(self.positions@) =~= position_map(self.positions@).remove(key));
                    }
                },
            },
        }
        proof {
            assert(self.pool_amounts@.dom() =~= old(self).pool_amounts@.dom());
            assert forall|m: MarketId| #[trigger] self.pool_amounts@.contains_key(m) implies self.pool_amounts@[
                m
            ].funding_balanced() by {
                if m != market {
                    assert(old(self).pool_amounts@.contains_key(m));
                }
            }
        }
    }
}

impl Exchange {
    /// Each market's funding indices cancel out in a well-formed ledger.
    pub proof fn lemma_funding_zero_sum(&self, market: MarketId)
        requires
            self.wf(),
            self.pool_amounts@.contains_key(market),
        ensures
            self.pool_amounts@[market].accumulated_funding_long_per_usd
                + self.pool_amounts@[market].accumulated_funding_short_per_usd == 0,
    {
    }

    /// Positions owned by `account`.
    pub fn get_account_positions(&self, account: AccountId) -> (r: Vec<Position>)
        ensures
            forall|p: Position| r@.contains(p) <==> (self.positions@.contains(p) && p.account == account),
    {
        let mut out: Vec<Position> = Vec::new();
        let mut i: usize = 0;
        while i < self.positions.len()
            invariant
                i <= self.positions@.len(),
                forall|x: Position|
                    out@.contains(x) <==> (exists|j: int| 0 <= j < i && #[trigger] self.positions@[j] == x
                        && x.account == account),
            decreases self.positions@.len() - i,
        {
            let p = self.positions[i];
            let ghost prev = out@;
            if p.account == account {
                out.push(p);
            }
            proof {
                assert forall|y: Position| out@.contains(y) <==> (exists|j: int|
                    0 <= j < i + 1 && #[trigger] self.positions@[j] == y && y.account == account) by {
                    if out@.contains(y) {
                        let k = choose|k: int| 0 <= k < out@.len() && out@[k] == y;
                        if k < prev.len() {
                            assert(prev[k] == y);
                            assert(prev.contains(y));
                        } else {
                            assert(self.positions@[i as int] == y);
                        }
                    }
                    if exists|j: int| 0 <= j < i + 1 && #[trigger] self.positions@[j] == y && y.account == account {
                        let j = choose|j: int| 0 <= j < i + 1 && #[trigger] self.positions@[j] == y && y.account == account;
                        if j == i {
                            assert(out@[out@.len() - 1] == y);
                        } else {
                            assert(prev.contains(y));
                            let k = choose|k: int| 0 <= k < prev.len() && prev[k] == y;
                            assert(out@[k] == y);
                        }
                    }
                }
            }
            i = i + 1;
        }
        proof {
            assert forall|p: Position| self.positions@.contains(p) && p.account == account implies out@.contains(p) by {
                let j = choose|j: int| 0 <= j < self.positions@.len() && self.positions@[j] == p;
                assert(self.positions@[j] == p);
            }
        }
        out
    }

    /// PnL of the position under `key` at `current_price`.
    pub fn get_position_pnl(&self, key: &PositionKey, current_price: u128) -> (r: Result<i128, Error>)
        requires
            self.wf(),
        ensures
            match find_position(self.positions@, *key) {
                None => r == Err::<i128, Error>(Error::PositionNotFound),
                Some(p) => match crate::position::position_pnl(p, current_price as nat) {
                    Ok(v) => r == Ok::<i128, Error>(v as i128),
                    Err(e) => r == Err::<i128, Error>(e),
                },
            },
    {
        let pos = match self.get_position(key) {
            Ok(p) => p,
            Err(e) => {
                return Err(e);
            },
        };
        PositionModule::calculate_pnl(&pos, current_price)
    }

    /// Whether the position under `key` is at or below its market's liquidation threshold
    /// at the index token's mid price (fees not yet settled are not counted).
    pub fn can_liquidate(&self, key: &PositionKey) -> (r: Result<bool, Error>)
        requires
            self.wf(),
        ensures
            match find_position(self.positions@, *key) {
                None => r == Err::<bool, Error>(Error::PositionNotFound),
                Some(p) => if !self.markets@.contains_key(p.market) {
                    r == Err::<bool, Error>(Error::MarketNotFound)
                } else if !self.oracle.prices@.contains_key(self.markets@[p.market].index_token) {
                    r == Err::<bool, Error>(Error::PriceNotAvailable)
                } else {
                    r == crate::position::liquidatable(
                        p,
                        self.oracle.prices@[self.markets@[p.market].index_token].spec_mid(),
                        self.market_configs@[p.market].liquidation_threshold_bps as nat,
                    )
                },
            },
    {
        let pos = match self.get_position(key) {
            Ok(p) => p,
            Err(e) => {
                return Err(e);
            },
        };
        let m = match self.markets.get(&pos.market) {
            Some(m) => *m,
            None => {
                return Err(Error::MarketNotFound);
            },
        };
        let cfg = match self.market_configs.get(&pos.market) {
            Some(c) => *c,
            None => {
                return Err(Error::MarketNotFound);
            },
        };
        let mid = match self.oracle.prices.get(&m.index_token) {
            Some(p) => p.mid(),
            None => {
                return Err(Error::PriceNotAvailable);
            },
        };
        crate::risk::RiskModule::is_liquidatable(&pos, mid, cfg.liquidation_threshold_bps)
    }
}

impl Exchange {
    /// A market's token identifiers.
    pub fn get_market(&self, market_id: MarketId) -> (r: Result<Market, Error>)
        ensures
            self.markets@.contains_key(market_id) ==> r == Ok::<Market, Error>(self.markets@[market_id]),
            !self.markets@.contains_key(market_id) ==> r == Err::<Market, Error>(Error::MarketNotFound),
    {
        match self.markets.get(&market_id) {
            Some(m) => Ok(*m),
            None => Err(Error::MarketNotFound),
        }
    }

    /// A market's configuration.
    pub fn get_market_config(&self, market_id: MarketId) -> (r: Result<MarketConfig, Error>)
        ensures
            self.market_configs@.contains_key(market_id) ==> r == Ok::<MarketConfig, Error>(
                self.market_configs@[market_id],
            ),
            !self.market_configs@.contains_key(market_id) ==> r == Err::<MarketConfig, Error>(
                Error::MarketNotFound,
            ),
    {
        match self.market_configs.get(&market_id) {
            Some(c) => Ok(*c),
            None => Err(Error::MarketNotFound),
        }
    }

    /// Shares of a market held by `account`, zero when none.
    pub fn lp_balance_of(&self, market_id: MarketId, account: AccountId) -> (r: Result<u128, Error>)
        ensures
            self.market_tokens@.contains_key(market_id) ==> r == Ok::<u128, Error>(
                amount_in(self.market_tokens@[market_id].balances@, account) as u128,
            ),
            !self.market_tokens@.contains_key(market_id) ==> r == Err::<u128, Error>(Error::MarketNotFound),
    {
        match self.market_tokens.get(&market_id) {
            Some(t) => match t.balances.get(&account) {
                Some(b) => Ok(*b),
                None => Ok(0),
            },
            None => Err(Error::MarketNotFound),
        }
    }

    /// Number of open positions.
    pub fn get_total_positions(&self) -> (r: u64)
        ensures
            r == self.positions@.len(),
    {
        self.positions.len() as u64
    }

    /// Number of orders ever saved.
    pub fn get_total_orders(&self) -> (r: u64)
        ensures
            r == self.orders@.len(),
    {
        self.orders.len() as u64
    }

    /// Keys of the positions that `can_liquidate` reports at or below their threshold.
    pub fn get_liquidatable_positions(&self) -> (r: Vec<PositionKey>)
        requires
            self.wf(),
        ensures
            forall|k: PositionKey|
                r@.contains(k) <==> (exists|j: int|
                    0 <= j < self.positions@.len() && #[trigger] self.positions@[j].key == k
                        && self.can_liquidate_spec(self.positions@[j])),
    {
        let mut out: Vec<PositionKey> = Vec::new();
        let mut i: usize = 0;
        while i < self.positions.len()
            invariant
                i <= self.positions@.len(),
                self.wf(),
                forall|k: PositionKey|
                    out@.contains(k) <==> (exists|j: int|
                        0 <= j < i && #[trigger] self.positions@[j].key == k && self.can_liquidate_spec(
                            self.positions@[j],
                        )),
            decreases self.positions@.len() - i,
        {
            let key = self.positions[i].key;
            let ghost prev = out@;
            proof {
                lemma_find_at(self.positions@, i as int);
            }
            let hit = match self.can_liquidate(&key) {
                Ok(true) => true,
                _ => false,
            };
            if hit {
                out.push(key);
            }
            proof {
                assert forall|k: PositionKey| out@.contains(k) <==> (exists|j: int|
                    0 <= j < i + 1 && #[trigger] self.positions@[j].key == k && self.can_liquidate_spec(
                        self.positions@[j],
                    )) by {
                    if out@.contains(k) {
                        let n = choose|n: int| 0 <= n < out@.len() && out@[n] == k;
                        if n < prev.len() {
                            assert(prev[n] == k);
                            assert(prev.contains(k));
                        } else {
                            assert(self.positions@[i as int].key == k);
                        }
                    }
                    if exists|j: int|
                        0 <= j < i + 1 && #[trigger] self.positions@[j].key == k && self.can_liquidate_spec(
                            self.positions@[j],
                        ) {
                        let j = choose|j: int|
                            0 <= j < i + 1 && #[trigger] self.positions@[j].key == k && self.can_liquidate_spec(
                                self.positions@[j],
                            );
                        if j == i {
                            assert(out@[out@.len() - 1] == k);
                        } else {
                            assert(prev.contains(k));
                            let n = choose|n: int| 0 <= n < prev.len() && prev[n] == k;
                            assert(out@[n] == k);
                        }
                    }
                }
            }
            i = i + 1;
        }
        out
    }

    /// Whether `can_liquidate` reports `p` at or below its threshold.
    pub open spec fn can_liquidate_spec(&self, p: Position) -> bool {
        &&& self.markets@.contains_key(p.market)
        &&& self.oracle.prices@.contains_key(self.markets@[p.market].index_token)
        &&& crate::position::liquidatable(
            p,
            self.oracle.prices@[self.markets@[p.market].index_token].spec_mid(),
            self.market_configs@[p.market].liquidation_threshold_bps as nat,
        ) == Ok::<bool, Error>(true)
    }
}

} // verus!
