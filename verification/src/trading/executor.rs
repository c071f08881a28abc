//! Trade executor: turns signals into positions and closes positions at their take-profit,
//! stop-loss or timeout.
//!
//! Entry: a resting (maker) order for maker signals with more than two minutes left,
//! otherwise fill-or-kill. The same signal is not acted on twice within 15 seconds, and
//! there is at most one open position per market. Take-profit and stop-loss levels depend
//! on the signal's confidence.

use vstd::prelude::*;
use std::time::Instant;
use crate::fixed::{UNIT, in_range, shares_in_range, trunc_div, div_toward_zero};
use crate::text::{same_text, signed_pct_text, signed_pct_string};
use crate::clock::{instant_now, secs_since};
use crate::data::clob::{ClobClient, ClobError, OrderResult, fast_order_outcome,
    limit_order_outcome, unsellable, rand_id};
use crate::strategies::Signal;
use crate::trading::risk::{RiskManager, bet_size};

verus! {

/// An open position. Prices in micro-dollars, shares in millionths, percentages in `PCT`
/// units.
pub struct Position {
    pub id: String,
    pub coin: String,
    pub direction: String,
    pub token_id: String,
    pub market_id: String,
    pub strategy: String,
    pub entry_price: i64,
    pub current_price: i64,
    pub shares: i128,
    pub size_pusd: i64,
    pub tp_pct: i64,
    pub sl_pct: i64,
    pub pnl_pct: i128,
    pub peak_pnl_pct: i128,
    pub opened_at: Instant,
    /// Seconds the market had left when the position was opened.
    pub market_close_time: i64,
}

impl Clone for Position {
    fn clone(&self) -> (r: Self)
        ensures
            r == *self,
    {
        Position {
            id: self.id.clone(),
            coin: self.coin.clone(),
            direction: self.direction.clone(),
            token_id: self.token_id.clone(),
            market_id: self.market_id.clone(),
            strategy: self.strategy.clone(),
            entry_price: self.entry_price,
            current_price: self.current_price,
            shares: self.shares,
            size_pusd: self.size_pusd,
            tp_pct: self.tp_pct,
            sl_pct: self.sl_pct,
            pnl_pct: self.pnl_pct,
            peak_pnl_pct: self.peak_pnl_pct,
            opened_at: self.opened_at,
            market_close_time: self.market_close_time,
        }
    }
}

/// Seconds after which an open position is closed regardless of its profit.
pub const POSITION_TIMEOUT_SECS: u64 = 330;

/// Seconds within which the same signal is not acted on again.
pub const DEDUP_WINDOW_SECS: u64 = 15;

/// Profit (in `PCT` units) of a position entered at `entry` and now priced at `price`:
/// the price change relative to the entry, with the sign flipped unless the position is UP.
pub open spec fn pnl_at(up: bool, entry: int, price: int) -> int {
    if up {
        trunc_div((price - entry) * UNIT, entry)
    } else {
        trunc_div((entry - price) * UNIT, entry)
    }
}

/// Why a position closes, if it does: take-profit first, then stop-loss, then timeout.
pub enum ExitKind {
    ProfitTake,
    StopLoss,
    Timeout,
}

pub open spec fn exit_kind(p: &Position, elapsed_secs: u64) -> Option<ExitKind> {
    if p.pnl_pct >= p.tp_pct {
        Some(ExitKind::ProfitTake)
    } else if p.pnl_pct <= -p.sl_pct {
        Some(ExitKind::StopLoss)
    } else if elapsed_secs > POSITION_TIMEOUT_SECS {
        Some(ExitKind::Timeout)
    } else {
        None
    }
}

/// The exit message: `profit_take (P%)`, `stop_loss (P%)` or `timeout`.
pub open spec fn exit_text(p: &Position, elapsed_secs: u64) -> Option<Seq<char>> {
    match exit_kind(p, elapsed_secs) {
        Some(ExitKind::ProfitTake) => Some("profit_take ("@ + signed_pct_text(p.pnl_pct as int) + "%)"@),
        Some(ExitKind::StopLoss) => Some("stop_loss ("@ + signed_pct_text(p.pnl_pct as int) + "%)"@),
        Some(ExitKind::Timeout) => Some("timeout"@),
        None => None,
    }
}

/// Bound on the profit percentage of a representable position.
pub open spec fn pnl_in_range(v: int) -> bool {
    -1_000_000_000_000_000_000_000_000 <= v <= 1_000_000_000_000_000_000_000_000
}

impl Position {
    /// Re-prices the position and updates its profit and its peak profit.
    pub fn update_price(&mut self, price: i64)
        requires
            old(self).entry_price != 0,
        ensures
            final(self).current_price == price,
            final(self).pnl_pct == pnl_at(old(self).direction@ == "UP"@, old(self).entry_price as int,
                price as int),
            final(self).peak_pnl_pct == (if final(self).pnl_pct > old(self).peak_pnl_pct {
                final(self).pnl_pct
            } else {
                old(self).peak_pnl_pct
            }),
            final(self).peak_pnl_pct >= final(self).pnl_pct,
            final(self).peak_pnl_pct >= old(self).peak_pnl_pct,
            final(self).id == old(self).id,
            final(self).coin == old(self).coin,
            final(self).direction == old(self).direction,
            final(self).token_id == old(self).token_id,
            final(self).market_id == old(self).market_id,
            final(self).strategy == old(self).strategy,
            final(self).entry_price == old(self).entry_price,
            final(self).shares == old(self).shares,
            final(self).size_pusd == old(self).size_pusd,
            final(self).tp_pct == old(self).tp_pct,
            final(self).sl_pct == old(self).sl_pct,
            final(self).opened_at == old(self).opened_at,
            final(self).market_close_time == old(self).market_close_time,
    {
        self.current_price = price;
        let up = same_text(self.direction.as_str(), "UP");
        let diff: i128 = if up {
            price as i128 - self.entry_price as i128
        } else {
            self.entry_price as i128 - price as i128
        };
        assert(-20_000_000_000_000_000_000_000_000 <= diff * UNIT <= 20_000_000_000_000_000_000_000_000);
        self.pnl_pct = div_toward_zero(diff * UNIT as i128, self.entry_price as i128);
        if self.pnl_pct > self.peak_pnl_pct {
            self.peak_pnl_pct = self.pnl_pct;
        }
    }

    /// The exit message once `elapsed_secs` whole seconds have passed since the position
    /// was opened, or `None` while it should stay open.
    pub fn exit_reason(&self, elapsed_secs: u64) -> (r: Option<String>)
        requires
            pnl_in_range(self.pnl_pct as int),
        ensures
            r matches Some(t) ==> exit_text(self, elapsed_secs) == Some(t@),
            r is None ==> exit_text(self, elapsed_secs) is None,
    {
        if self.pnl_pct >= self.tp_pct as i128 {
            let t = String::from_str("profit_take (")
                .concat(signed_pct_string(self.pnl_pct).as_str())
                .concat("%)");
            return Some(t);
        }
        if self.pnl_pct <= -(self.sl_pct as i128) {
            let t = String::from_str("stop_loss (")
                .concat(signed_pct_string(self.pnl_pct).as_str())
                .concat("%)");
            return Some(t);
        }
        if elapsed_secs > POSITION_TIMEOUT_SECS {
            return Some(String::from_str("timeout"));
        }
        None
    }

    /// The exit message now (see `exit_reason`): the time since opening is read from the
    /// clock, so only the timeout depends on it.
    pub fn should_exit(&self) -> (r: Option<String>)
        requires
            pnl_in_range(self.pnl_pct as int),
        ensures
            exists|elapsed: u64| #[trigger] exit_text(self, elapsed) == match r {
                Some(t) => Some(t@),
                None => None::<Seq<char>>,
            },
    {
        let elapsed = secs_since(&self.opened_at);
        let r = self.exit_reason(elapsed);
        assert(exit_text(self, elapsed) == match r {
            Some(t) => Some(t@),
            None => None::<Seq<char>>,
        });
        r
    }
}

/// Take-profit percentage for a signal's confidence.
pub open spec fn take_profit(confidence: int) -> int {
    if confidence >= 850_000 {
        300_000
    } else if confidence >= 750_000 {
        180_000
    } else {
        120_000
    }
}

/// Stop-loss percentage for a signal's confidence.
pub open spec fn stop_loss(confidence: int) -> int {
    if confidence >= 850_000 {
        150_000
    } else if confidence >= 750_000 {
        90_000
    } else {
        60_000
    }
}

/// The take-profit level is always twice the stop-loss level.
pub proof fn lemma_take_profit_twice_stop_loss(confidence: int)
    ensures
        take_profit(confidence) == 2 * stop_loss(confidence),
{
}

/// Higher confidence never narrows the take-profit or stop-loss levels.
pub proof fn lemma_exit_levels_monotone(c1: int, c2: int)
    requires
        c1 <= c2,
    ensures
        take_profit(c1) <= take_profit(c2),
        stop_loss(c1) <= stop_loss(c2),
{
}

pub fn compute_tp(confidence: i64) -> (r: i64)
    ensures
        r == take_profit(confidence as int),
{
    if confidence >= 850_000 {
        300_000
    } else if confidence >= 750_000 {
        180_000
    } else {
        120_000
    }
}

pub fn compute_sl(confidence: i64) -> (r: i64)
    ensures
        r == stop_loss(confidence as int),
{
    if confidence >= 850_000 {
        150_000
    } else if confidence >= 750_000 {
        90_000
    } else {
        60_000
    }
}

/// When a signal was last acted on.
struct DedupEntry {
    key: String,
    at: Instant,
}

/// The signals acted on recently, by key, with the instant each was last acted on.
pub struct RecentSignals {
    entries: Vec<DedupEntry>,
}

/// Index of the first occurrence of `key` in `keys` at or after `i`, or -1.
pub open spec fn index_from(keys: Seq<Seq<char>>, key: Seq<char>, i: int) -> int
    decreases keys.len() - i,
{
    if i < 0 || i >= keys.len() {
        -1
    } else if keys[i] == key {
        i
    } else {
        index_from(keys, key, i + 1)
    }
}

/// What `index_from` finds: an occurrence with none before it, or no occurrence at all.
pub proof fn lemma_index_from(keys: Seq<Seq<char>>, key: Seq<char>, i: int)
    requires
        0 <= i,
    ensures
        index_from(keys, key, i) >= 0 ==> {
            &&& i <= index_from(keys, key, i) < keys.len()
            &&& keys[index_from(keys, key, i)] == key
            &&& forall|j: int| i <= j < index_from(keys, key, i) ==> keys[j] != key
        },
        index_from(keys, key, i) < 0 ==> index_from(keys, key, i) == -1
            && forall|j: int| i <= j < keys.len() ==> keys[j] != key,
    decreases keys.len() - i,
{
    if i < keys.len() && keys[i] != key {
        lemma_index_from(keys, key, i + 1);
    }
}

/// Skipping positions that do not hold `key` does not change the first occurrence.
proof fn lemma_index_skip(keys: Seq<Seq<char>>, key: Seq<char>, a: int, i: int)
    requires
        0 <= a <= i <= keys.len(),
        forall|j: int| a <= j < i ==> keys[j] != key,
    ensures
        index_from(keys, key, a) == index_from(keys, key, i),
    decreases i - a,
{
    if a < i {
        lemma_index_skip(keys, key, a + 1, i);
    }
}

/// Appending an element keeps every earlier first occurrence and adds the new one.
proof fn lemma_index_push(keys: Seq<Seq<char>>, x: Seq<char>, key: Seq<char>, i: int)
    requires
        0 <= i <= keys.len(),
    ensures
        index_from(keys.push(x), key, i) == if index_from(keys, key, i) >= 0 {
            index_from(keys, key, i)
        } else if key == x {
            keys.len() as int
        } else {
            -1
        },
    decreases keys.len() - i,
{
    let pushed = keys.push(x);
    if i < keys.len() {
        lemma_index_push(keys, x, key, i + 1);
        assert(pushed[i] == keys[i]);
    } else {
        assert(pushed[i] == x);
        assert(index_from(pushed, key, i + 1) == -1);
    }
}

impl RecentSignals {
    /// The keys on record, in order.
    pub closed spec fn keys(&self) -> Seq<Seq<char>> {
        self.entries@.map_values(|e: DedupEntry| e.key@)
    }

    /// The instant `key` was last acted on, if it is on record.
    pub closed spec fn seen_at(&self, key: Seq<char>) -> Option<Instant> {
        let i = index_from(self.keys(), key, 0);
        if i >= 0 {
            Some(self.entries@[i].at)
        } else {
            None
        }
    }

    pub fn new() -> (r: RecentSignals)
        ensures
            r.keys() == Seq::<Seq<char>>::empty(),
            forall|k: Seq<char>| #[trigger] r.seen_at(k) is None,
    {
        RecentSignals { entries: Vec::new() }
    }

    /// The instant `key` was last acted on, if it is on record.
    pub fn recorded_at(&self, key: &String) -> (r: Option<Instant>)
        ensures
            r == self.seen_at(key@),
    {
        let mut i: usize = 0;
        while i < self.entries.len()
            invariant
                0 <= i <= self.entries@.len(),
                forall|j: int| 0 <= j < i ==> self.keys()[j] != key@,
            decreases self.entries@.len() - i,
        {
            if self.entries[i].key == *key {
                proof {
                    lemma_index_skip(self.keys(), key@, 0, i as int);
                    assert(self.keys()[i as int] == key@);
                }
                return Some(self.entries[i].at);
            }
            i = i + 1;
        }
        proof {
            lemma_index_skip(self.keys(), key@, 0, i as int);
        }
        None
    }

    /// Records that `key` was acted on at `at`; every other key keeps its instant.
    fn record(&mut self, key: String, at: Instant)
        ensures
            final(self).keys().contains(key@),
            final(self).seen_at(key@) == Some(at),
            forall|k: Seq<char>| k != key@ ==> #[trigger] final(self).seen_at(k) == old(self).seen_at(k),
    {
        let ghost k0 = key@;
        let mut i: usize = 0;
        while i < self.entries.len()
            invariant
                0 <= i <= self.entries@.len(),
                self.entries@ == old(self).entries@,
                key@ == k0,
                forall|j: int| 0 <= j < i ==> self.keys()[j] != k0,
            decreases self.entries@.len() - i,
        {
            if self.entries[i].key == key {
                let ghost before = self.entries@;
                proof {
                    lemma_index_skip(self.keys(), k0, 0, i as int);
                }
                self.entries.set(i, DedupEntry { key, at });
                proof {
                    assert(self.keys() =~= old(self).keys());
                    assert(self.keys()[i as int] == k0);
                    assert forall|k: Seq<char>| k != k0 implies #[trigger] self.seen_at(k)
                        == old(self).seen_at(k) by {
                        lemma_index_from(self.keys(), k, 0);
                    }
                }
                return;
            }
            i = i + 1;
        }
        proof {
            lemma_index_skip(self.keys(), k0, 0, i as int);
            lemma_index_from(old(self).keys(), k0, 0);
        }
        self.entries.push(DedupEntry { key, at });
        proof {
            let n = old(self).entries@.len() as int;
            assert(self.keys() =~= old(self).keys().push(k0));
            lemma_index_push(old(self).keys(), k0, k0, 0);
            assert(self.keys()[n] == k0);
            assert forall|k: Seq<char>| k != k0 implies #[trigger] self.seen_at(k)
                == old(self).seen_at(k) by {
                lemma_index_push(old(self).keys(), k0, k, 0);
                lemma_index_from(old(self).keys(), k, 0);
            }
        }
    }
}

pub struct Executor {
    pub open_positions: Vec<Position>,
    pub closed_trades: Vec<Position>,
    pub dedup: RecentSignals,
}

/// Some position in `s` is in the market `market`.
pub open spec fn has_market(s: Seq<Position>, market: Seq<char>) -> bool {
    exists|i: int| 0 <= i < s.len() && (#[trigger] s[i]).market_id@ == market
}

/// No two positions share an id.
pub open spec fn ids_distinct(s: Seq<Position>) -> bool {
    forall|i: int, j: int| 0 <= i < j < s.len() ==> (#[trigger] s[i]).id@ != (#[trigger] s[j]).id@
}

/// No two positions share a market.
pub open spec fn markets_distinct(s: Seq<Position>) -> bool {
    forall|i: int, j: int| 0 <= i < j < s.len() ==> (#[trigger] s[i]).market_id@ != (
    #[trigger] s[j]).market_id@
}

/// Index of the last position with id `id`, or -1.
pub open spec fn last_with_id(s: Seq<Position>, id: Seq<char>) -> int
    decreases s.len(),
{
    if s.len() == 0 {
        -1
    } else if s.last().id@ == id {
        s.len() - 1
    } else {
        last_with_id(s.drop_last(), id)
    }
}

/// `s` with `p` stored under its id: replacing the position with that id, else appended.
pub open spec fn stored(s: Seq<Position>, p: Position) -> Seq<Position> {
    let i = last_with_id(s, p.id@);
    if i >= 0 {
        s.update(i, p)
    } else {
        s.push(p)
    }
}

/// The key under which repeated signals are recognised: coin, direction, market and
/// strategy joined by underscores.
pub open spec fn dedup_key(s: &Signal) -> Seq<char> {
    s.coin@ + "_"@ + s.direction@ + "_"@ + s.market_id@ + "_"@ + s.strategy@
}

/// The signal asks for a resting order: a maker signal with more than two minutes left.
pub open spec fn wants_resting_order(s: &Signal) -> bool {
    s.order_type@ == "maker"@ && s.seconds_remaining > 120
}

/// `o` is what ordering `size` dollars for `s` gives, with order number `nonce`.
pub open spec fn entry_order(s: &Signal, size: int, nonce: u64, o: Result<OrderResult, ClobError>) -> bool {
    if wants_resting_order(s) {
        limit_order_outcome("BUY"@, s.entry_price as int, size, nonce, o)
    } else {
        fast_order_outcome("BUY"@, size, s.entry_price as int, nonce, o)
    }
}

/// The position opened for signal `s` by order `o` of `size` dollars at `opened_at`.
pub open spec fn opened_position(p: Position, s: &Signal, o: OrderResult, size: int, opened_at: Instant) -> bool {
    &&& p.id@ == o.order_id@
    &&& p.coin@ == s.coin@
    &&& p.direction@ == s.direction@
    &&& p.token_id@ == s.token_id@
    &&& p.market_id@ == s.market_id@
    &&& p.strategy@ == s.strategy@
    &&& p.entry_price == o.price
    &&& p.current_price == o.price
    &&& p.shares == o.size
    &&& p.size_pusd == size
    &&& p.tp_pct == take_profit(s.confidence as int)
    &&& p.sl_pct == stop_loss(s.confidence as int)
    &&& p.pnl_pct == 0
    &&& p.peak_pnl_pct == 0
    &&& p.opened_at == opened_at
    &&& p.market_close_time == s.seconds_remaining
}

/// What acting on signal `s` (once it has passed the repeat check) does to the open
/// positions `before`, giving `after` and the result `r`.
pub open spec fn entry_effect(
    before: Seq<Position>,
    s: &Signal,
    risk: &RiskManager,
    opened_at: Instant,
    nonce: u64,
    after: Seq<Position>,
    r: Result<Option<Position>, ClobError>,
) -> bool {
    let size = bet_size(risk.balance as int, s.confidence as int);
    if has_market(before, s.market_id@) || size < UNIT {
        r == Ok::<Option<Position>, ClobError>(None) && after == before
    } else {
        exists|o: Result<OrderResult, ClobError>| #[trigger] entry_order(s, size, nonce, o) && match o {
            Err(e) => r == Err::<Option<Position>, ClobError>(e) && after == before,
            Ok(ord) => r matches Ok(Some(p)) && opened_position(p, s, ord, size, opened_at) && after
                == stored(before, p),
        }
    }
}

/// The key was acted on less than 15 seconds ago.
pub open spec fn is_repeat(since_seen: Option<u64>) -> bool {
    since_seen matches Some(e) && e < DEDUP_WINDOW_SECS
}

/// What acting on signal `s`, whose key was last acted on `since_seen` seconds ago, does to
/// the executor `before`, giving `after` and the result `r`: a repeat changes nothing and
/// gives `Ok(None)`; otherwise the key is recorded at `now` (other keys keep their
/// instants) and the entry goes as `entry_effect` says. Closed trades never change.
pub open spec fn signal_outcome(
    before: Executor,
    after: Executor,
    s: &Signal,
    risk: &RiskManager,
    since_seen: Option<u64>,
    now: Instant,
    nonce: u64,
    r: Result<Option<Position>, ClobError>,
) -> bool {
    &&& after.closed_trades@ == before.closed_trades@
    &&& if is_repeat(since_seen) {
        &&& r == Ok::<Option<Position>, ClobError>(None)
        &&& after.open_positions@ == before.open_positions@
        &&& after.dedup == before.dedup
    } else {
        &&& after.dedup.seen_at(dedup_key(s)) == Some(now)
        &&& forall|k: Seq<char>| k != dedup_key(s) ==> #[trigger] after.dedup.seen_at(k)
            == before.dedup.seen_at(k)
        &&& entry_effect(before.open_positions@, s, risk, now, nonce, after.open_positions@, r)
    }
}

/// Whether position `p`, `elapsed_secs` after opening, stays open after a monitoring pass:
/// it has no exit reason, or its exit order is refused.
pub open spec fn stays_open(p: Position, elapsed_secs: u64) -> bool {
    exit_kind(&p, elapsed_secs) is None || unsellable(p.shares as int, p.current_price as int)
}

/// The positions of `s` that stay open, in order, given each one's age.
pub open spec fn kept(s: Seq<Position>, ages: Seq<u64>) -> Seq<Position>
    decreases s.len(),
{
    if s.len() == 0 || ages.len() != s.len() {
        s
    } else {
        let rest = kept(s.drop_last(), ages.drop_last());
        if stays_open(s.last(), ages.last()) {
            rest.push(s.last())
        } else {
            rest
        }
    }
}

/// The numbers of every position fit the fixed-point range.
pub open spec fn positions_in_range(s: Seq<Position>) -> bool {
    forall|i: int| 0 <= i < s.len() ==> {
        &&& shares_in_range((#[trigger] s[i]).shares as int)
        &&& in_range(s[i].current_price as int)
        &&& pnl_in_range(s[i].pnl_pct as int)
    }
}

fn key_of(s: &Signal) -> (k: String)
    ensures
        k@ == dedup_key(s),
{
    s.coin.clone().concat("_").concat(s.direction.as_str()).concat("_").concat(
        s.market_id.as_str(),
    ).concat("_").concat(s.strategy.as_str())
}

/// Open positions have distinct ids and distinct markets.
pub open spec fn book_wf(s: Seq<Position>) -> bool {
    &&& ids_distinct(s)
    &&& markets_distinct(s)
}

impl Executor {
    pub fn new() -> (e: Executor)
        ensures
            e.open_positions@ == Seq::<Position>::empty(),
            e.closed_trades@ == Seq::<Position>::empty(),
            e.dedup.keys() == Seq::<Seq<char>>::empty(),
            forall|k: Seq<char>| #[trigger] e.dedup.seen_at(k) is None,
            book_wf(e.open_positions@),
    {
        Executor { open_positions: Vec::new(), closed_trades: Vec::new(), dedup: RecentSignals::new() }
    }

    fn market_is_open(&self, market_id: &String) -> (r: bool)
        ensures
            r == has_market(self.open_positions@, market_id@),
    {
        let mut i: usize = 0;
        while i < self.open_positions.len()
            invariant
                0 <= i <= self.open_positions@.len(),
                forall|k: int| 0 <= k < i ==> (#[trigger] self.open_positions@[k]).market_id@ != market_id@,
            decreases self.open_positions@.len() - i,
        {
            if self.open_positions[i].market_id == *market_id {
                return true;
            }
            i = i + 1;
        }
        false
    }

    fn store(&mut self, p: Position)
        ensures
            final(self).open_positions@ == stored(old(self).open_positions@, p),
            final(self).closed_trades@ == old(self).closed_trades@,
            final(self).dedup == old(self).dedup,
    {
        let n = self.open_positions.len();
        let mut found: Option<usize> = None;
        let mut i: usize = 0;
        while i < n
            invariant
                n == self.open_positions@.len(),
                self.open_positions@ == old(self).open_positions@,
                0 <= i <= n,
                match found {
                    Some(k) => k < i && last_with_id(self.open_positions@.take(i as int), p.id@) == k,
                    None => last_with_id(self.open_positions@.take(i as int), p.id@) == -1,
                },
            decreases n - i,
        {
            proof {
                assert(self.open_positions@.take(i + 1).drop_last() =~= self.open_positions@.take(
                    i as int,
                ));
            }
            if self.open_positions[i].id == p.id {
                found = Some(i);
            }
            i = i + 1;
        }
        proof {
            assert(self.open_positions@.take(n as int) =~= self.open_positions@);
        }
        match found {
            Some(k) => {
                self.open_positions.set(k, p);
            },
            None => {
                self.open_positions.push(p);
            },
        }
    }

    /// Acts on a signal that has passed the repeat check: skips it when its market already
    /// has a position or the risk manager's bet size is under $1, otherwise places the entry
    /// order (numbered `nonce`) and records the position opened at `opened_at`.
    pub fn open_position(
        &mut self,
        signal: &Signal,
        clob: &ClobClient,
        risk: &RiskManager,
        opened_at: Instant,
        nonce: u64,
    ) -> (r: Result<Option<Position>, ClobError>)
        requires
            risk.wf(),
            in_range(signal.confidence as int),
            in_range(signal.entry_price as int),
        ensures
            entry_effect(old(self).open_positions@, signal, risk, opened_at, nonce,
                final(self).open_positions@, r),
            final(self).closed_trades@ == old(self).closed_trades@,
            final(self).dedup == old(self).dedup,
    {
        if self.market_is_open(&signal.market_id) {
            return Ok(None);
        }
        let size_pusd = risk.calculate_size(signal.confidence);
        if size_pusd < UNIT {
            return Ok(None);
        }
        let ghost size = size_pusd as int;
        let resting = same_text(signal.order_type.as_str(), "maker") && signal.seconds_remaining > 120;
        proof {
            reveal_strlit("BUY");
        }
        let placed = if resting {
            clob.limit_order_with_id(signal.token_id.as_str(), "BUY", signal.entry_price, size_pusd, nonce)
        } else {
            clob.fast_order_with_id(signal.token_id.as_str(), "BUY", size_pusd, signal.entry_price, nonce)
        };
        assert(entry_order(signal, size, nonce, placed));
        let result = match placed {
            Ok(o) => o,
            Err(e) => {
                return Err(e);
            },
        };
        if same_text(result.status.as_str(), "MATCHED") || same_text(result.status.as_str(), "LIVE") {
            let position = Position {
                id: result.order_id.clone(),
                coin: signal.coin.clone(),
                direction: signal.direction.clone(),
                token_id: signal.token_id.clone(),
                market_id: signal.market_id.clone(),
                strategy: signal.strategy.clone(),
                entry_price: result.price,
                current_price: result.price,
                shares: result.size,
                size_pusd,
                tp_pct: compute_tp(signal.confidence),
                sl_pct: compute_sl(signal.confidence),
                pnl_pct: 0,
                peak_pnl_pct: 0,
                opened_at,
                market_close_time: signal.seconds_remaining,
            };
            let copy = position.clone();
            self.store(position);
            return Ok(Some(copy));
        }
        proof {
            reveal_strlit("MATCHED");
            reveal_strlit("LIVE");
        }
        Ok(None)
    }

    /// Acts on a signal whose key was last acted on `since_seen` whole seconds ago (`None`:
    /// never): a repeat within the last 15 seconds is skipped; otherwise the key is recorded
    /// at `now` and the signal is acted on as `open_position` describes, with order number
    /// `nonce` and the position opened at `now`.
    pub fn act_on_signal(
        &mut self,
        signal: &Signal,
        clob: &ClobClient,
        risk: &RiskManager,
        since_seen: Option<u64>,
        now: Instant,
        nonce: u64,
    ) -> (r: Result<Option<Position>, ClobError>)
        requires
            risk.wf(),
            in_range(signal.confidence as int),
            in_range(signal.entry_price as int),
        ensures
            signal_outcome(*old(self), *final(self), signal, risk, since_seen, now, nonce, r),
            book_wf(old(self).open_positions@) ==> book_wf(final(self).open_positions@),
    {
        if let Some(e) = since_seen {
            if e < DEDUP_WINDOW_SECS {
                return Ok(None);
            }
        }
        let key = key_of(signal);
        self.dedup.record(key, now);
        let ghost before = self.open_positions@;
        let r = self.open_position(signal, clob, risk, now, nonce);
        proof {
            if book_wf(old(self).open_positions@) {
                lemma_entry_keeps_wf(before, signal, risk, now, nonce, self.open_positions@, r);
            }
        }
        r
    }

    /// Acts on a signal (see `act_on_signal`): the seconds since its key was last acted on
    /// are read from the clock, as are the current instant and a fresh order number.
    pub fn execute_signal(&mut self, signal: &Signal, clob: &ClobClient, risk: &RiskManager) -> (r:
        Result<Option<Position>, ClobError>)
        requires
            risk.wf(),
            in_range(signal.confidence as int),
            in_range(signal.entry_price as int),
        ensures
            exists|since_seen: Option<u64>, now: Instant, nonce: u64|
                (since_seen is Some <==> old(self).dedup.seen_at(dedup_key(signal)) is Some)
                && #[trigger] signal_outcome(*old(self), *final(self), signal, risk, since_seen, now,
                nonce, r),
            book_wf(old(self).open_positions@) ==> book_wf(final(self).open_positions@),
    {
        let key = key_of(signal);
        let since_seen = match self.dedup.recorded_at(&key) {
            Some(at) => Some(secs_since(&at)),
            None => None,
        };
        let now = instant_now();
        let nonce = rand_id();
        self.act_on_signal(signal, clob, risk, since_seen, now, nonce)
    }
}

impl Executor {
    /// Closes the positions that should exit, given each one's age in whole seconds: every
    /// position with an exit reason is sold at its current price and dropped, unless the
    /// sale is refused, in which case it stays open.
    pub fn close_exits(&mut self, clob: &ClobClient, ages: &Vec<u64>)
        requires
            ages@.len() == old(self).open_positions@.len(),
            positions_in_range(old(self).open_positions@),
        ensures
            final(self).open_positions@ == kept(old(self).open_positions@, ages@),
            final(self).closed_trades@ == old(self).closed_trades@,
            final(self).dedup == old(self).dedup,
    {
        let n = self.open_positions.len();
        let mut remaining: Vec<Position> = Vec::new();
        let mut i: usize = 0;
        while i < n
            invariant
                n == self.open_positions@.len(),
                n == ages@.len(),
                self.open_positions@ == old(self).open_positions@,
                positions_in_range(self.open_positions@),
                0 <= i <= n,
                remaining@ == kept(self.open_positions@.take(i as int), ages@.take(i as int)),
            decreases n - i,
        {
            let p = &self.open_positions[i];
            proof {
                assert(self.open_positions@.take(i + 1).drop_last() =~= self.open_positions@.take(
                    i as int,
                ));
                assert(ages@.take(i + 1).drop_last() =~= ages@.take(i as int));
                assert(shares_in_range(p.shares as int));
            }
            let keep = match p.exit_reason(ages[i]) {
                Some(_) => clob.place_sell(p.token_id.as_str(), p.shares, p.current_price).is_err(),
                None => true,
            };
            if keep {
                remaining.push(p.clone());
            }
            i = i + 1;
        }
        proof {
            assert(self.open_positions@.take(n as int) =~= self.open_positions@);
            assert(ages@.take(n as int) =~= ages@);
        }
        self.open_positions = remaining;
    }

    /// The instant each open position was opened, in order.
    pub fn opened_instants(&self) -> (r: Vec<Instant>)
        ensures
            r@ == self.open_positions@.map_values(|p: Position| p.opened_at),
    {
        let mut out: Vec<Instant> = Vec::new();
        let mut i: usize = 0;
        while i < self.open_positions.len()
            invariant
                0 <= i <= self.open_positions@.len(),
                out@ == self.open_positions@.take(i as int).map_values(|p: Position| p.opened_at),
            decreases self.open_positions@.len() - i,
        {
            out.push(self.open_positions[i].opened_at);
            proof {
                assert(self.open_positions@.take(i + 1).map_values(|p: Position| p.opened_at) =~= out@);
            }
            i = i + 1;
        }
        proof {
            assert(self.open_positions@.take(i as int) =~= self.open_positions@);
        }
        out
    }

    /// Monitors the open positions for take-profit, stop-loss and timeout and closes those
    /// that should exit, as `close_exits` describes: each position's age is read from the
    /// clock as the whole seconds since its opening instant (see `opened_instants`).
    pub fn monitor_positions(&mut self, clob: &ClobClient)
        requires
            positions_in_range(old(self).open_positions@),
        ensures
            exists|ages: Seq<u64>| ages.len() == old(self).open_positions@.len()
                && final(self).open_positions@ == #[trigger] kept(old(self).open_positions@, ages),
            final(self).closed_trades@ == old(self).closed_trades@,
            book_wf(old(self).open_positions@) ==> book_wf(final(self).open_positions@),
    {
        let opened = self.opened_instants();
        let mut ages: Vec<u64> = Vec::new();
        let mut i: usize = 0;
        while i < opened.len()
            invariant
                opened@.len() == self.open_positions@.len(),
                0 <= i <= opened@.len(),
                ages@.len() == i,
            decreases opened@.len() - i,
        {
            ages.push(secs_since(&opened[i]));
            i = i + 1;
        }
        let ghost before = self.open_positions@;
        self.close_exits(clob, &ages);
        proof {
            lemma_kept_distinct(before, ages@);
        }
    }
}

/// Every position kept is one of the positions given.
proof fn lemma_kept_subsequence(s: Seq<Position>, ages: Seq<u64>)
    ensures
        kept(s, ages).len() <= s.len(),
        forall|j: int| 0 <= j < kept(s, ages).len() ==> s.contains(#[trigger] kept(s, ages)[j]),
    decreases s.len(),
{
    if s.len() > 0 && ages.len() == s.len() {
        let t = s.drop_last();
        lemma_kept_subsequence(t, ages.drop_last());
        let rest = kept(t, ages.drop_last());
        assert forall|j: int| 0 <= j < kept(s, ages).len() implies s.contains(#[trigger] kept(s, ages)[j]) by {
            if j < rest.len() {
                assert(t.contains(rest[j]));
                let k = choose|k: int| 0 <= k < t.len() && t[k] == rest[j];
                assert(s[k] == t[k]);
                assert(kept(s, ages)[j] == rest[j]);
            } else {
                assert(s[s.len() - 1] == kept(s, ages)[j]);
            }
        }
    } else {
        assert forall|j: int| 0 <= j < kept(s, ages).len() implies s.contains(#[trigger] kept(s, ages)[j]) by {
            assert(s[j] == kept(s, ages)[j]);
        }
    }
}

/// A monitoring pass keeps every position that has no exit reason, or whose exit order is
/// refused.
pub proof fn lemma_monitor_keeps_staying_positions(s: Seq<Position>, ages: Seq<u64>, i: int)
    requires
        ages.len() == s.len(),
        0 <= i < s.len(),
        stays_open(s[i], ages[i]),
    ensures
        kept(s, ages).contains(s[i]),
    decreases s.len(),
{
    let t = s.drop_last();
    let rest = kept(t, ages.drop_last());
    if i == s.len() - 1 {
        assert(kept(s, ages) == rest.push(s[i]));
        assert(kept(s, ages)[rest.len() as int] == s[i]);
    } else {
        lemma_monitor_keeps_staying_positions(t, ages.drop_last(), i);
        assert(t[i] == s[i]);
        let k = choose|k: int| 0 <= k < rest.len() && rest[k] == s[i];
        if stays_open(s.last(), ages.last()) {
            assert(kept(s, ages)[k] == s[i]);
        } else {
            assert(kept(s, ages)[k] == s[i]);
        }
    }
}

/// A monitoring pass closes every position that has an exit reason and can be sold (of
/// positions with distinct ids).
pub proof fn lemma_monitor_closes_sellable_exits(s: Seq<Position>, ages: Seq<u64>, i: int)
    requires
        ages.len() == s.len(),
        ids_distinct(s),
        0 <= i < s.len(),
        !stays_open(s[i], ages[i]),
    ensures
        !kept(s, ages).contains(s[i]),
    decreases s.len(),
{
    let t = s.drop_last();
    let at = ages.drop_last();
    let rest = kept(t, at);
    lemma_kept_subsequence(t, at);
    assert(ids_distinct(t)) by {
        assert forall|a: int, b: int| 0 <= a < b < t.len() implies (#[trigger] t[a]).id@ != (#[trigger] t[b]).id@ by {
            assert(t[a] == s[a] && t[b] == s[b]);
        }
    }
    if i == s.len() - 1 {
        assert(kept(s, ages) == rest);
        if rest.contains(s[i]) {
            let k = choose|k: int| 0 <= k < rest.len() && rest[k] == s[i];
            assert(t.contains(rest[k]));
            let j = choose|j: int| 0 <= j < t.len() && t[j] == rest[k];
            assert(s[j] == t[j]);
            assert(s[j].id@ != s[i].id@);
        }
    } else {
        lemma_monitor_closes_sellable_exits(t, at, i);
        assert(t[i] == s[i]);
        assert(s[i].id@ != s[s.len() - 1].id@);
        if kept(s, ages).contains(s[i]) {
            let k = choose|k: int| 0 <= k < kept(s, ages).len() && kept(s, ages)[k] == s[i];
            if stays_open(s.last(), ages.last()) {
                if k < rest.len() {
                    assert(rest[k] == s[i]);
                } else {
                    assert(kept(s, ages)[k] == s.last());
                }
            } else {
                assert(rest[k] == s[i]);
            }
        }
    }
}

/// Closing positions keeps ids and markets distinct.
proof fn lemma_kept_distinct(s: Seq<Position>, ages: Seq<u64>)
    ensures
        book_wf(s) ==> book_wf(kept(s, ages)),
    decreases s.len(),
{
    if s.len() > 0 && ages.len() == s.len() && book_wf(s) {
        let t = s.drop_last();
        assert(book_wf(t)) by {
            assert forall|a: int, b: int| 0 <= a < b < t.len() implies (#[trigger] t[a]).id@ != (#[trigger] t[b]).id@ by {
                assert(t[a] == s[a] && t[b] == s[b]);
            }
            assert forall|a: int, b: int| 0 <= a < b < t.len() implies (#[trigger] t[a]).market_id@ != (#[trigger] t[b]).market_id@ by {
                assert(t[a] == s[a] && t[b] == s[b]);
            }
        }
        lemma_kept_distinct(t, ages.drop_last());
        lemma_kept_subsequence(t, ages.drop_last());
        let rest = kept(t, ages.drop_last());
        if stays_open(s.last(), ages.last()) {
            let u = rest.push(s.last());
            assert forall|a: int, b: int| 0 <= a < b < u.len() implies (#[trigger] u[a]).id@ != (#[trigger] u[b]).id@ && u[a].market_id@ != u[b].market_id@ by {
                if b == rest.len() {
                    assert(t.contains(rest[a]));
                    let k = choose|k: int| 0 <= k < t.len() && t[k] == rest[a];
                    assert(s[k] == t[k]);
                    assert(s[k].id@ != s[s.len() - 1].id@);
                    assert(s[k].market_id@ != s[s.len() - 1].market_id@);
                } else {
                    assert(u[a] == rest[a] && u[b] == rest[b]);
                }
            }
        }
    }
}

/// Acting on a signal keeps ids and markets distinct.
proof fn lemma_entry_keeps_wf(
    before: Seq<Position>,
    s: &Signal,
    risk: &RiskManager,
    at: Instant,
    nonce: u64,
    after: Seq<Position>,
    r: Result<Option<Position>, ClobError>,
)
    requires
        ids_distinct(before),
        markets_distinct(before),
        entry_effect(before, s, risk, at, nonce, after, r),
    ensures
        ids_distinct(after),
        markets_distinct(after),
{
    let size = bet_size(risk.balance as int, s.confidence as int);
    if !(has_market(before, s.market_id@) || size < UNIT) {
        let o = choose|o: Result<OrderResult, ClobError>| #[trigger] entry_order(s, size, nonce, o) && match o {
            Err(e) => r == Err::<Option<Position>, ClobError>(e) && after == before,
            Ok(ord) => r matches Ok(Some(p)) && opened_position(p, s, ord, size, at) && after
                == stored(before, p),
        };
        if let Ok(ord) = o {
            let p = r->Ok_0->Some_0;
            lemma_stored_distinct(before, p);
        }
    }
}

proof fn lemma_last_with_id(s: Seq<Position>, id: Seq<char>)
    ensures
        -1 <= last_with_id(s, id) < s.len(),
        last_with_id(s, id) >= 0 ==> s[last_with_id(s, id)].id@ == id,
        last_with_id(s, id) == -1 ==> forall|k: int| 0 <= k < s.len() ==> (#[trigger] s[k]).id@ != id,
    decreases s.len(),
{
    if s.len() > 0 {
        lemma_last_with_id(s.drop_last(), id);
        if s.last().id@ != id {
            assert forall|k: int| 0 <= k < s.len() && last_with_id(s, id) == -1 implies (#[trigger] s[k]).id@
                != id by {
                if k < s.len() - 1 {
                    assert(s[k] == s.drop_last()[k]);
                }
            }
        }
    }
}

/// Storing a position whose market has no position keeps ids and markets distinct.
proof fn lemma_stored_distinct(s: Seq<Position>, p: Position)
    requires
        ids_distinct(s),
        markets_distinct(s),
        !has_market(s, p.market_id@),
    ensures
        ids_distinct(stored(s, p)),
        markets_distinct(stored(s, p)),
{
    lemma_last_with_id(s, p.id@);
    let t = stored(s, p);
    let i = last_with_id(s, p.id@);
    assert forall|a: int, b: int| 0 <= a < b < t.len() implies (#[trigger] t[a]).id@ != (#[trigger] t[b]).id@ by {
        if i >= 0 {
            if a == i {
                assert(s[b].id@ != s[i].id@);
            } else if b == i {
                assert(s[a].id@ != s[i].id@);
            }
        } else {
            if b == s.len() {
                assert(s[a].id@ != p.id@);
            }
        }
    }
    assert forall|a: int, b: int| 0 <= a < b < t.len() implies (#[trigger] t[a]).market_id@ != (
    #[trigger] t[b]).market_id@ by {
        if i >= 0 {
            if a == i {
                assert(s[b].market_id@ != p.market_id@);
            } else if b == i {
                assert(s[a].market_id@ != p.market_id@);
            }
        } else {
            if b == s.len() {
                assert(s[a].market_id@ != p.market_id@);
            }
        }
    }
}

/// A signal whose key was acted on less than 15 seconds ago is skipped: the result is
/// `Ok(None)` and neither the open positions nor the record of signals change.
pub proof fn lemma_repeat_is_skipped(
    before: Executor,
    after: Executor,
    s: &Signal,
    risk: &RiskManager,
    since_seen: Option<u64>,
    now: Instant,
    nonce: u64,
    r: Result<Option<Position>, ClobError>,
)
    requires
        is_repeat(since_seen),
        signal_outcome(before, after, s, risk, since_seen, now, nonce, r),
    ensures
        r == Ok::<Option<Position>, ClobError>(None),
        after.open_positions@ == before.open_positions@,
        after.dedup == before.dedup,
{
}

/// A signal for a market that already has an open position opens nothing: the result is
/// `Ok(None)` and the open positions do not change.
pub proof fn lemma_occupied_market_is_skipped(
    before: Executor,
    after: Executor,
    s: &Signal,
    risk: &RiskManager,
    since_seen: Option<u64>,
    now: Instant,
    nonce: u64,
    r: Result<Option<Position>, ClobError>,
)
    requires
        has_market(before.open_positions@, s.market_id@),
        signal_outcome(before, after, s, risk, since_seen, now, nonce, r),
    ensures
        r == Ok::<Option<Position>, ClobError>(None),
        after.open_positions@ == before.open_positions@,
{
}

/// Acting on a signal keeps the open positions at one per market and one per id.
pub proof fn lemma_signal_keeps_book_wf(
    before: Executor,
    after: Executor,
    s: &Signal,
    risk: &RiskManager,
    since_seen: Option<u64>,
    now: Instant,
    nonce: u64,
    r: Result<Option<Position>, ClobError>,
)
    requires
        book_wf(before.open_positions@),
        signal_outcome(before, after, s, risk, since_seen, now, nonce, r),
    ensures
        book_wf(after.open_positions@),
{
    if !is_repeat(since_seen) {
        lemma_entry_keeps_wf(before.open_positions@, s, risk, now, nonce, after.open_positions@, r);
    }
}

/// A signal last acted on 15 or more seconds ago is not a repeat: its key is recorded at
/// `now` and the entry goes ahead as `entry_effect` describes.
pub proof fn lemma_stale_signal_is_acted_on(
    before: Executor,
    after: Executor,
    s: &Signal,
    risk: &RiskManager,
    since_seen: Option<u64>,
    now: Instant,
    nonce: u64,
    r: Result<Option<Position>, ClobError>,
)
    requires
        since_seen matches Some(e) ==> e >= DEDUP_WINDOW_SECS,
        signal_outcome(before, after, s, risk, since_seen, now, nonce, r),
    ensures
        after.dedup.seen_at(dedup_key(s)) == Some(now),
        entry_effect(before.open_positions@, s, risk, now, nonce, after.open_positions@, r),
{
}

/// A position past the 330-second timeout is closed by a monitoring pass unless its exit
/// order is refused (it is worth under $1 even at 0.99).
pub proof fn lemma_timed_out_position_closes(s: Seq<Position>, ages: Seq<u64>, i: int)
    requires
        ages.len() == s.len(),
        ids_distinct(s),
        0 <= i < s.len(),
        ages[i] > POSITION_TIMEOUT_SECS,
        !unsellable(s[i].shares as int, s[i].current_price as int),
    ensures
        !kept(s, ages).contains(s[i]),
{
    assert(exit_kind(&s[i], ages[i]) is Some);
    lemma_monitor_closes_sellable_exits(s, ages, i);
}

} // verus!
