//! Order-book summaries and order pre-validation for the CLOB.

use vstd::prelude::*;
use crate::fixed::{UNIT, TICK, MAX_AMOUNT, MIN_PRICE, MAX_PRICE, in_range, shares_in_range, spec_min, spec_max,
    spec_clamp_price, clamp_price, max_i64, min_i64, trunc_div, div_toward_zero};
use crate::decimal::{decimal_micros, parse_decimal};
use crate::text::{same_text, hex_text, hex_string};
use crate::config::Config;
use crate::clock::{system_now, since_unix_epoch, whole_nanos};

verus! {

/// Summary of one token's order book.
pub struct Orderbook {
    pub token_id: String,
    pub best_bid: i64,
    pub best_ask: i64,
    pub mid_price: i64,
    pub spread: i64,
    /// Dollar value resting on the first ten bid levels (micro-dollars).
    pub bid_depth: i128,
    /// Dollar value resting on the first ten ask levels (micro-dollars).
    pub ask_depth: i128,
}

/// Bound (exclusive) on a price read from a book.
pub open spec fn book_price_ok(x: int) -> bool {
    -MAX_TEXT_VALUE < x < MAX_TEXT_VALUE
}

/// Bound on a side's depth: ten levels of price times size, in micro-dollars.
pub open spec fn book_depth_ok(x: int) -> bool {
    -MAX_DEPTH <= x <= MAX_DEPTH
}

impl Orderbook {
    /// The numeric fields are within what readable levels give.
    pub open spec fn wf(&self) -> bool {
        &&& book_price_ok(self.best_bid as int)
        &&& book_price_ok(self.best_ask as int)
        &&& book_price_ok(self.mid_price as int)
        &&& -2 * MAX_TEXT_VALUE < self.spread < 2 * MAX_TEXT_VALUE
        &&& book_depth_ok(self.bid_depth as int)
        &&& book_depth_ok(self.ask_depth as int)
    }
}

/// One price level of a book as quoted: price and size as decimal text, where present.
pub struct BookLevel {
    pub price: Option<String>,
    pub size: Option<String>,
}

/// Best bid taken when the bid side is empty or unreadable.
pub const DEFAULT_BID: i64 = 10_000;

/// Best ask taken when the ask side is empty or unreadable.
pub const DEFAULT_ASK: i64 = 990_000;

/// Number of levels summed into a side's depth.
pub const DEPTH_LEVELS: usize = 10;

pub open spec fn text_value(t: Option<String>) -> Option<int> {
    match t {
        Some(s) => decimal_micros(s@),
        None => None,
    }
}

/// Price of the first level, or `default` when there is none or it cannot be read.
pub open spec fn best_price(levels: Seq<BookLevel>, default: int) -> int {
    if levels.len() > 0 && text_value(levels[0].price) is Some {
        text_value(levels[0].price)->0
    } else {
        default
    }
}

/// Price times size of a level (in micro-units squared), when both can be read.
pub open spec fn level_value(l: BookLevel) -> Option<int> {
    match (text_value(l.price), text_value(l.size)) {
        (Some(p), Some(s)) => Some(p * s),
        _ => None,
    }
}

pub open spec fn value_sum(levels: Seq<BookLevel>) -> int
    decreases levels.len(),
{
    if levels.len() == 0 {
        0
    } else {
        value_sum(levels.drop_last()) + match level_value(levels.last()) {
            Some(v) => v,
            None => 0,
        }
    }
}

/// Dollar value of the first ten readable levels, rounded toward zero.
pub open spec fn depth(levels: Seq<BookLevel>) -> int {
    let n = if levels.len() < DEPTH_LEVELS { levels.len() as int } else { DEPTH_LEVELS as int };
    trunc_div(value_sum(levels.take(n)), UNIT as int)
}

/// The summary the book's levels give.
pub open spec fn summary_matches(b: &Orderbook, token_id: Seq<char>, bids: Seq<BookLevel>, asks: Seq<BookLevel>) -> bool {
    let bid = best_price(bids, DEFAULT_BID as int);
    let ask = best_price(asks, DEFAULT_ASK as int);
    &&& b.token_id@ == token_id
    &&& b.best_bid == bid
    &&& b.best_ask == ask
    &&& b.mid_price == trunc_div(bid + ask, 2)
    &&& b.spread == ask - bid
    &&& b.bid_depth == depth(bids)
    &&& b.ask_depth == depth(asks)
}

/// Bound (exclusive) on the magnitude of a readable decimal.
pub const MAX_TEXT_VALUE: i64 = 4_000_000_000_000_000_000;

/// Bound on a book side's depth in micro-dollars: ten products of two readings, over `UNIT`.
pub const MAX_DEPTH: i128 = 160_000_000_000_000_000_000_000_000_000_000;

proof fn lemma_text_value_range(t: Option<String>)
    ensures
        text_value(t) matches Some(v) ==> -MAX_TEXT_VALUE < v < MAX_TEXT_VALUE,
{
    if let Some(s) = t {
        crate::decimal::lemma_decimal_range(s@);
    }
}

proof fn lemma_value_sum_range(levels: Seq<BookLevel>)
    ensures
        -(levels.len() * (MAX_TEXT_VALUE * MAX_TEXT_VALUE)) <= value_sum(levels) <= levels.len() * (
        MAX_TEXT_VALUE * MAX_TEXT_VALUE),
    decreases levels.len(),
{
    if levels.len() > 0 {
        lemma_value_sum_range(levels.drop_last());
        let l = levels.last();
        lemma_text_value_range(l.price);
        lemma_text_value_range(l.size);
        if let Some(v) = level_value(l) {
            let p = text_value(l.price)->0;
            let s = text_value(l.size)->0;
            assert(-(MAX_TEXT_VALUE * MAX_TEXT_VALUE) <= p * s <= MAX_TEXT_VALUE * MAX_TEXT_VALUE)
                by (nonlinear_arith)
                requires
                    -MAX_TEXT_VALUE < p < MAX_TEXT_VALUE,
                    -MAX_TEXT_VALUE < s < MAX_TEXT_VALUE,
            ;
        }
        assert((levels.len() - 1) * (MAX_TEXT_VALUE * MAX_TEXT_VALUE) + MAX_TEXT_VALUE * MAX_TEXT_VALUE
            == levels.len() * (MAX_TEXT_VALUE * MAX_TEXT_VALUE)) by (nonlinear_arith);
    }
}

fn read_text(t: &Option<String>) -> (r: Option<i64>)
    ensures
        r matches Some(v) ==> text_value(*t) == Some(v as int) && -MAX_TEXT_VALUE < v < MAX_TEXT_VALUE,
        r is None ==> text_value(*t) is None,
{
    proof {
        lemma_text_value_range(*t);
    }
    match t {
        Some(s) => parse_decimal(s.as_str()),
        None => None,
    }
}

fn best_level_price(levels: &Vec<BookLevel>, default: i64) -> (r: i64)
    requires
        -MAX_TEXT_VALUE < default < MAX_TEXT_VALUE,
    ensures
        r == best_price(levels@, default as int),
        -MAX_TEXT_VALUE < r < MAX_TEXT_VALUE,
{
    if levels.len() > 0 {
        match read_text(&levels[0].price) {
            Some(p) => p,
            None => default,
        }
    } else {
        default
    }
}

fn side_depth(levels: &Vec<BookLevel>) -> (r: i128)
    ensures
        r == depth(levels@),
        book_depth_ok(r as int),
{
    let n = if levels.len() < DEPTH_LEVELS { levels.len() } else { DEPTH_LEVELS };
    let mut sum: i128 = 0;
    let mut k: usize = 0;
    while k < n
        invariant
            n <= levels.len(),
            n <= DEPTH_LEVELS,
            0 <= k <= n,
            sum == value_sum(levels@.take(k as int)),
            -(k * (MAX_TEXT_VALUE * MAX_TEXT_VALUE)) <= sum <= k * (MAX_TEXT_VALUE * MAX_TEXT_VALUE),
        decreases n - k,
    {
        let l = &levels[k];
        proof {
            assert(levels@.take(k + 1).drop_last() =~= levels@.take(k as int));
            lemma_value_sum_range(levels@.take(k + 1));
        }
        match (read_text(&l.price), read_text(&l.size)) {
            (Some(p), Some(s)) => {
                proof {
                    assert(-(MAX_TEXT_VALUE * MAX_TEXT_VALUE) <= p * s <= MAX_TEXT_VALUE
                        * MAX_TEXT_VALUE) by (nonlinear_arith)
                        requires
                            -MAX_TEXT_VALUE < p < MAX_TEXT_VALUE,
                            -MAX_TEXT_VALUE < s < MAX_TEXT_VALUE,
                    ;
                }
                sum = sum + p as i128 * s as i128;
            },
            _ => {},
        }
        k = k + 1;
    }
    assert(-(10 * (MAX_TEXT_VALUE * MAX_TEXT_VALUE)) <= sum <= 10 * (MAX_TEXT_VALUE * MAX_TEXT_VALUE))
        by (nonlinear_arith)
        requires
            -(k * (MAX_TEXT_VALUE * MAX_TEXT_VALUE)) <= sum <= k * (MAX_TEXT_VALUE * MAX_TEXT_VALUE),
            k <= 10,
            k >= 0,
    ;
    let q = div_toward_zero(sum, UNIT as i128);
    assert(-MAX_DEPTH <= q <= MAX_DEPTH) by (nonlinear_arith)
        requires
            q == trunc_div(sum as int, UNIT as int),
            -(10 * (MAX_TEXT_VALUE * MAX_TEXT_VALUE)) <= sum <= 10 * (MAX_TEXT_VALUE * MAX_TEXT_VALUE),
    ;
    q
}

impl Orderbook {
    /// Summarises a book from its quoted levels (best first): the best bid and ask default to
    /// 0.01 and 0.99, and each side's depth sums price times size over its first ten levels.
    pub fn from_levels(token_id: &str, bids: &Vec<BookLevel>, asks: &Vec<BookLevel>) -> (r: Orderbook)
        ensures
            summary_matches(&r, token_id@, bids@, asks@),
            r.wf(),
    {
        let best_bid = best_level_price(bids, DEFAULT_BID);
        let best_ask = best_level_price(asks, DEFAULT_ASK);
        let bid_depth = side_depth(bids);
        let ask_depth = side_depth(asks);
        Orderbook {
            token_id: String::from_str(token_id),
            best_bid,
            best_ask,
            mid_price: div_toward_zero(best_bid as i128 + best_ask as i128, 2) as i64,
            spread: best_ask - best_bid,
            bid_depth,
            ask_depth,
        }
    }
}

/// An order as placed (paper trading fills it at once).
pub struct OrderResult {
    pub order_id: String,
    /// `"MATCHED"` for a filled order, `"LIVE"` for a resting one.
    pub status: String,
    /// Price in micro-dollars.
    pub price: i64,
    /// Shares in millionths.
    pub size: i128,
    pub side: String,
    /// `"FOK"` or `"GTC"`.
    pub order_type: String,
}

/// Why an order was refused before it was placed.
pub enum ClobError {
    /// The budget covers neither the smallest fill-or-kill order nor the smallest resting one.
    BudgetTooLow { size_pusd: i64, fok_cost: i64, gtc_min_cost: i64 },
    /// A resting order needs at least five shares (`size_pusd / price` is fewer).
    TooFewShares { size_pusd: i64, price: i64 },
    /// A resting order at a zero price: its share count would be unbounded.
    InvalidPrice { price: i64 },
    /// The position is worth less than the $1 exchange minimum even at 0.99.
    Unsellable { shares: i128, price: i64 },
}

/// Client for order placement.
pub struct ClobClient {
    base_url: String,
    signature_type: u8,
}

/// Minimum shares of a resting (GTC) order.
pub const GTC_MIN_SHARES: i64 = 5;

/// `"paper-"` followed by the order number in hexadecimal.
pub open spec fn paper_order_id(nonce: u64) -> Seq<char> {
    "paper-"@ + hex_text(nonce as nat)
}

/// Fill-or-kill price: the requested price clamped to `[0.01, 0.99]`.
pub open spec fn fok_price(price: int) -> int {
    spec_clamp_price(price)
}

/// Whole shares needed for a $1 fill-or-kill order at price `p`.
pub open spec fn min_fok_shares(p: int) -> int {
    (UNIT + p - 1) / p
}

/// Cost of the smallest fill-or-kill order at price `p`.
pub open spec fn fok_cost(p: int) -> int {
    p * min_fok_shares(p)
}

/// The smallest fill-or-kill order is the fewest whole shares worth at least $1: at any
/// price in the tick band it costs at least $1, and one share fewer would cost under $1.
pub proof fn lemma_fok_minimum_is_tight(p: int)
    requires
        MIN_PRICE <= p <= MAX_PRICE,
    ensures
        min_fok_shares(p) >= 1,
        fok_cost(p) >= UNIT,
        fok_cost(p) - p < UNIT,
{
    let x = UNIT + p - 1;
    let n = min_fok_shares(p);
    vstd::arithmetic::div_mod::lemma_fundamental_div_mod(x, p);
    vstd::arithmetic::div_mod::lemma_mod_bound(x, p);
    assert(n >= 1 && p * n >= UNIT && p * n - p < UNIT) by (nonlinear_arith)
        requires
            x == UNIT + p - 1,
            n == x / p,
            x == p * (x / p) + x % p,
            0 <= x % p < p,
            p >= 1,
    ;
}

/// Price of the fallback resting order: a tick better for the maker, within the band.
pub open spec fn gtc_price(buy: bool, p: int) -> int {
    if buy {
        spec_max(p - TICK, MIN_PRICE as int)
    } else {
        spec_min(p + TICK, MAX_PRICE as int)
    }
}

/// Cost of the smallest resting order (five shares).
pub open spec fn gtc_min_cost(buy: bool, p: int) -> int {
    gtc_price(buy, p) * GTC_MIN_SHARES
}

/// The budget is below 95% of both minimum order costs.
pub open spec fn budget_too_low(size_pusd: int, buy: bool, p: int) -> bool {
    &&& size_pusd * 100 < 95 * fok_cost(p)
    &&& size_pusd * 100 < 95 * gtc_min_cost(buy, p)
}

/// What a fast order for `size_pusd` at `price` gives, with order number `nonce`.
pub open spec fn fast_order_outcome(side: Seq<char>, size_pusd: int, price: int, nonce: u64, r: Result<OrderResult, ClobError>) -> bool {
    let p = fok_price(price);
    let buy = side == "BUY"@;
    if budget_too_low(size_pusd, buy, p) {
        r == Err::<OrderResult, ClobError>(ClobError::BudgetTooLow {
            size_pusd: size_pusd as i64,
            fok_cost: fok_cost(p) as i64,
            gtc_min_cost: gtc_min_cost(buy, p) as i64,
        })
    } else {
        r matches Ok(o) && {
            &&& o.order_id@ == paper_order_id(nonce)
            &&& o.status@ == "MATCHED"@
            &&& o.price == p
            &&& o.size == size_pusd * UNIT / p
            &&& o.side@ == side
            &&& o.order_type@ == "FOK"@
        }
    }
}

/// `size_pusd / price` is below five shares (at a zero price: a negative budget, whose
/// share count is minus infinity).
pub open spec fn too_few_gtc_shares(price: int, size_pusd: int) -> bool {
    if price > 0 {
        size_pusd < GTC_MIN_SHARES * price
    } else if price < 0 {
        size_pusd > GTC_MIN_SHARES * price
    } else {
        size_pusd < 0
    }
}

/// What a resting order for `size_pusd` at `price` gives, with order number `nonce`: the
/// share count is `size_pusd / price`, rounded toward zero.
pub open spec fn limit_order_outcome(side: Seq<char>, price: int, size_pusd: int, nonce: u64, r: Result<OrderResult, ClobError>) -> bool {
    if too_few_gtc_shares(price, size_pusd) {
        r == Err::<OrderResult, ClobError>(ClobError::TooFewShares {
            size_pusd: size_pusd as i64,
            price: price as i64,
        })
    } else if price == 0 {
        r == Err::<OrderResult, ClobError>(ClobError::InvalidPrice { price: price as i64 })
    } else {
        r matches Ok(o) && {
            &&& o.order_id@ == paper_order_id(nonce)
            &&& o.status@ == "LIVE"@
            &&& o.price == price
            &&& o.size == trunc_div(size_pusd * UNIT, price)
            &&& o.side@ == side
            &&& o.order_type@ == "GTC"@
        }
    }
}

/// `1.0` in the units of a price times a share count.
pub open spec fn one_dollar_notional() -> int {
    UNIT * UNIT
}

/// Worth less than $1 at `price` and also at 0.99.
pub open spec fn unsellable(shares: int, price: int) -> bool {
    &&& shares * price < one_dollar_notional()
    &&& shares * MAX_PRICE < one_dollar_notional()
}

/// Exit price: the given price, or, below the $1 minimum, the price that reaches $1
/// (rounded up to the next micro-dollar), at most 0.99.
pub open spec fn sell_price(shares: int, price: int) -> int {
    if shares * price < one_dollar_notional() {
        spec_min((one_dollar_notional() + shares - 1) / shares, MAX_PRICE as int)
    } else {
        price
    }
}

/// What an exit order for `shares` at `price` gives, with order number `nonce`.
pub open spec fn sell_outcome(shares: int, price: int, nonce: u64, r: Result<OrderResult, ClobError>) -> bool {
    if unsellable(shares, price) {
        r == Err::<OrderResult, ClobError>(ClobError::Unsellable { shares: shares as i128, price: price as i64 })
    } else {
        r matches Ok(o) && {
            &&& o.order_id@ == paper_order_id(nonce)
            &&& o.status@ == "MATCHED"@
            &&& o.price == sell_price(shares, price)
            &&& o.size == shares
            &&& o.side@ == "SELL"@
            &&& o.order_type@ == "FOK"@
        }
    }
}

/// A fill-or-kill entry that goes through is priced within the tick band `[0.01, 0.99]`.
pub proof fn lemma_fast_order_in_band(side: Seq<char>, size_pusd: int, price: int, nonce: u64, r: Result<OrderResult, ClobError>)
    requires
        fast_order_outcome(side, size_pusd, price, nonce, r),
        r is Ok,
    ensures
        MIN_PRICE <= r->Ok_0.price <= MAX_PRICE,
{
}

/// A resting order that goes through holds at least five shares.
pub proof fn lemma_limit_order_min_shares(side: Seq<char>, price: int, size_pusd: int, nonce: u64, r: Result<OrderResult, ClobError>)
    requires
        limit_order_outcome(side, price, size_pusd, nonce, r),
        r is Ok,
    ensures
        r->Ok_0.size >= GTC_MIN_SHARES * UNIT,
{
    if price > 0 {
        assert((size_pusd * UNIT) / price >= 5 * UNIT) by (nonlinear_arith)
            requires
                price > 0,
                size_pusd >= 5 * price,
        ;
    } else {
        assert((-(size_pusd * UNIT)) / (-price) >= 5 * UNIT) by (nonlinear_arith)
            requires
                price < 0,
                size_pusd <= 5 * price,
        ;
    }
}

/// An exit that goes through is worth at least the $1 exchange minimum, at a price no
/// higher than the one asked unless that was below the minimum (then at most 0.99).
pub proof fn lemma_sell_meets_minimum(shares: int, price: int, nonce: u64, r: Result<OrderResult, ClobError>)
    requires
        sell_outcome(shares, price, nonce, r),
        r is Ok,
    ensures
        r->Ok_0.size * r->Ok_0.price >= one_dollar_notional(),
        shares * price < one_dollar_notional() ==> r->Ok_0.price <= MAX_PRICE,
{
    let o = r->Ok_0;
    if shares * price < one_dollar_notional() {
        let n = one_dollar_notional();
        let c = (n + shares - 1) / shares;
        assert(shares > 0) by (nonlinear_arith)
            requires
                shares * MAX_PRICE >= n,
                n > 0,
        ;
        assert(shares * c >= n) by (nonlinear_arith)
            requires
                shares > 0,
                c == (n + shares - 1) / shares,
        ;
        if c > MAX_PRICE {
            assert(o.price == MAX_PRICE);
        } else {
            assert(o.price == c);
        }
    }
}

/// A fresh order number from the system clock: the nanoseconds since the UNIX epoch, cut
/// to 64 bits, or 0 if the clock reads earlier than the epoch.
pub(crate) fn rand_id() -> u64 {
    let now = system_now();
    match since_unix_epoch(&now) {
        Ok(d) => whole_nanos(&d) as u64,
        Err(_) => 0,
    }
}

fn order_id_text(nonce: u64) -> (s: String)
    ensures
        s@ == paper_order_id(nonce),
{
    let hex = hex_string(nonce);
    String::from_str("paper-").concat(hex.as_str())
}

impl ClobClient {
    pub fn new(config: &Config) -> (r: ClobClient)
        ensures
            r.base_url() == config.clob_url@,
            r.signature_type() == config.signature_type,
    {
        ClobClient { base_url: config.clob_url.clone(), signature_type: config.signature_type }
    }

    pub closed spec fn base_url(&self) -> Seq<char> {
        self.base_url@
    }

    pub closed spec fn signature_type(&self) -> u8 {
        self.signature_type
    }

    /// Fill-or-kill entry for `size_pusd` dollars at `price`, numbered `nonce`: refused when
    /// the budget is under 95% of both the smallest fill-or-kill order (whole shares worth
    /// $1 at the clamped price) and the smallest resting order (five shares a tick away).
    pub fn fast_order_with_id(&self, token_id: &str, side: &str, size_pusd: i64, price: i64, nonce: u64) -> (r: Result<OrderResult, ClobError>)
        requires
            in_range(size_pusd as int),
        ensures
            fast_order_outcome(side@, size_pusd as int, price as int, nonce, r),
    {
        let p = clamp_price(price);
        let n = (UNIT + p - 1) / p;
        assert(p * n <= UNIT + p - 1 && p * n >= p) by (nonlinear_arith)
            requires
                n == (UNIT + p - 1) / (p as int),
                p >= MIN_PRICE,
        ;
        let fok_cost = p * n;
        let buy = same_text(side, "BUY");
        let gtc = if buy { max_i64(p - TICK, MIN_PRICE) } else { min_i64(p + TICK, MAX_PRICE) };
        let gtc_min_cost = gtc * GTC_MIN_SHARES;
        if (size_pusd as i128) * 100 < 95 * (fok_cost as i128)
            && (size_pusd as i128) * 100 < 95 * (gtc_min_cost as i128) {
            return Err(ClobError::BudgetTooLow { size_pusd, fok_cost, gtc_min_cost });
        }
        assert(size_pusd > 0);
        let q = (size_pusd as i128 * UNIT as i128) / p as i128;
        assert(0 <= q <= MAX_AMOUNT * 100) by (nonlinear_arith)
            requires
                q == (size_pusd * UNIT) / (p as int),
                p >= MIN_PRICE,
                0 < size_pusd <= MAX_AMOUNT,
        ;
        let shares = q;
        Ok(OrderResult {
            order_id: order_id_text(nonce),
            status: String::from_str("MATCHED"),
            price: p,
            size: shares,
            side: String::from_str(side),
            order_type: String::from_str("FOK"),
        })
    }

    /// Places a fill-or-kill entry (paper trading: it fills at once); see
    /// `fast_order_with_id`, of which this is the case for a fresh order number.
    pub fn place_fast_order(&self, token_id: &str, side: &str, size_pusd: i64, price: i64) -> (r: Result<OrderResult, ClobError>)
        requires
            in_range(size_pusd as int),
        ensures
            exists|nonce: u64| fast_order_outcome(side@, size_pusd as int, price as int, nonce, r),
    {
        let nonce = rand_id();
        self.fast_order_with_id(token_id, side, size_pusd, price, nonce)
    }

    /// Resting (maker) order for `size_pusd` dollars at `price`, numbered `nonce`: refused
    /// below five shares, and at a zero price.
    pub fn limit_order_with_id(&self, token_id: &str, side: &str, price: i64, size_pusd: i64, nonce: u64) -> (r: Result<OrderResult, ClobError>)
        requires
            in_range(size_pusd as int),
            in_range(price as int),
        ensures
            limit_order_outcome(side@, price as int, size_pusd as int, nonce, r),
    {
        let min_cost = GTC_MIN_SHARES as i128 * price as i128;
        let few = if price > 0 {
            (size_pusd as i128) < min_cost
        } else if price < 0 {
            (size_pusd as i128) > min_cost
        } else {
            size_pusd < 0
        };
        if few {
            return Err(ClobError::TooFewShares { size_pusd, price });
        }
        if price == 0 {
            return Err(ClobError::InvalidPrice { price });
        }
        let q = div_toward_zero(size_pusd as i128 * UNIT as i128, price as i128);
        proof {
            if price > 0 {
                assert(q >= 0) by (nonlinear_arith)
                    requires
                        q == (size_pusd * UNIT) / (price as int),
                        price >= 1,
                        size_pusd >= 5 * price,
                ;
            } else {
                assert(q >= 0) by (nonlinear_arith)
                    requires
                        q == (-(size_pusd * UNIT)) / (-price as int),
                        price <= -1,
                        size_pusd <= 5 * price,
                ;
            }
        }
        Ok(OrderResult {
            order_id: order_id_text(nonce),
            status: String::from_str("LIVE"),
            price,
            size: q,
            side: String::from_str(side),
            order_type: String::from_str("GTC"),
        })
    }

    /// Places a resting (maker) order (paper trading: it rests at once); see
    /// `limit_order_with_id`.
    pub fn place_limit_order(&self, token_id: &str, side: &str, price: i64, size_pusd: i64) -> (r: Result<OrderResult, ClobError>)
        requires
            in_range(size_pusd as int),
            in_range(price as int),
        ensures
            exists|nonce: u64| limit_order_outcome(side@, price as int, size_pusd as int, nonce, r),
    {
        let nonce = rand_id();
        self.limit_order_with_id(token_id, side, price, size_pusd, nonce)
    }

    /// Fill-or-kill exit of `shares` at `price`, numbered `nonce`: below the $1 minimum the
    /// price is raised to reach it (at most 0.99); refused if even 0.99 does not.
    pub fn sell_with_id(&self, token_id: &str, shares: i128, price: i64, nonce: u64) -> (r: Result<OrderResult, ClobError>)
        requires
            shares_in_range(shares as int),
            in_range(price as int),
        ensures
            sell_outcome(shares as int, price as int, nonce, r),
    {
        assert(-1_000_000_000_000_000_000_000_000_000_000_000_000 <= shares * price
            <= 1_000_000_000_000_000_000_000_000_000_000_000_000) by (nonlinear_arith)
            requires
                -1_000_000_000_000_000_000_000 <= shares <= 1_000_000_000_000_000_000_000,
                -1_000_000_000_000_000 <= price <= 1_000_000_000_000_000,
        ;
        assert(-1_000_000_000_000_000_000_000_000_000 <= shares * MAX_PRICE
            <= 1_000_000_000_000_000_000_000_000_000) by (nonlinear_arith)
            requires
                -1_000_000_000_000_000_000_000 <= shares <= 1_000_000_000_000_000_000_000,
        ;
        let notional = shares * price as i128;
        let one: i128 = 1_000_000_000_000;
        assert(one == one_dollar_notional());
        if notional < one && shares * (MAX_PRICE as i128) < one {
            return Err(ClobError::Unsellable { shares, price });
        }
        let p = if notional < one {
            assert(shares > 0);
            let needed = (one + shares - 1) / shares;
            if needed > MAX_PRICE as i128 {
                MAX_PRICE
            } else {
                needed as i64
            }
        } else {
            price
        };
        Ok(OrderResult {
            order_id: order_id_text(nonce),
            status: String::from_str("MATCHED"),
            price: p,
            size: shares,
            side: String::from_str("SELL"),
            order_type: String::from_str("FOK"),
        })
    }

    /// Places a fill-or-kill exit (paper trading: it fills at once); see `sell_with_id`.
    pub fn place_sell(&self, token_id: &str, shares: i128, price: i64) -> (r: Result<OrderResult, ClobError>)
        requires
            shares_in_range(shares as int),
            in_range(price as int),
        ensures
            exists|nonce: u64| sell_outcome(shares as int, price as int, nonce, r),
    {
        let nonce = rand_id();
        self.sell_with_id(token_id, shares, price, nonce)
    }
}

} // verus!
