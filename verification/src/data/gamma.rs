//! Market discovery: which time windows to look up, and how a raw market record
//! becomes a tradable `Market`.

use vstd::prelude::*;
use crate::fixed::{in_range, trunc_div, div_toward_zero};
use crate::decimal::{decimal_micros, parse_decimal};
use crate::text::{decimal_text, decimal_string, uppercase_text, to_upper};

verus! {

/// An active crypto up/down market.
pub struct Market {
    pub market_id: String,
    pub condition_id: String,
    pub question: String,
    pub coin: String,
    /// Market length in minutes.
    pub timeframe: u32,
    pub up_token_id: String,
    pub down_token_id: String,
    /// Whole seconds until the market closes (negative once it has closed).
    pub seconds_remaining: i64,
    /// Traded volume in micro-dollars.
    pub volume: i64,
    pub end_time: String,
}

impl Market {
    /// The time left fits the fixed-point representation.
    pub open spec fn wf(&self) -> bool {
        &&& in_range(self.seconds_remaining as int)
    }
}

/// A JSON value as the market record holds it, reduced to what the logic reads.
pub enum JsonValue {
    /// The key is not present.
    Absent,
    Bool(bool),
    Text(String),
    /// A JSON number, in micro-units.
    Number(i64),
    /// `null`, an array or an object.
    Other,
}

/// The fields of a market record from the events API.
pub struct RawMarket {
    pub active: JsonValue,
    pub closed: JsonValue,
    pub condition_id: JsonValue,
    pub question: JsonValue,
    pub clob_token_ids: JsonValue,
    pub end_date: JsonValue,
    pub end_date_iso: JsonValue,
    pub volume: JsonValue,
}

/// Length of one discovery window in seconds (markets open on five-minute boundaries).
pub const WINDOW_SECS: i64 = 300;

/// Name for the unix timestamp (seconds) of an RFC 3339 date-time, `None` when the text is
/// not one; computed by chrono.
pub uninterp spec fn rfc3339_timestamp(text: Seq<char>) -> Option<int>;

/// Name for the list of strings a JSON array of strings holds, `None` when the text is not
/// one; computed by serde_json.
pub uninterp spec fn json_string_list(text: Seq<char>) -> Option<Seq<Seq<char>>>;

/// Name for the Unicode lower-case form of a text; computed by `str::to_lowercase`.
pub uninterp spec fn lowercase_text(text: Seq<char>) -> Seq<char>;

/// Parses an RFC 3339 date-time with `chrono::DateTime::parse_from_rfc3339` and returns its
/// unix timestamp (`timestamp()`). chrono's dates lie within years ±262142, so the
/// timestamp lies within ±10^13 seconds.
#[verifier::external_body]
fn parse_rfc3339_timestamp(text: &str) -> (r: Option<i64>)
    ensures
        rfc3339_timestamp(text@) == match r {
            Some(t) => Some(t as int),
            None => None::<int>,
        },
        r matches Some(t) ==> -10_000_000_000_000 <= t <= 10_000_000_000_000,
{
    chrono::DateTime::parse_from_rfc3339(text).ok().map(|d| d.timestamp())
}

/// Parses a JSON array of strings with `serde_json::from_str::<Vec<String>>`.
#[verifier::external_body]
fn parse_string_list(text: &str) -> (r: Option<Vec<String>>)
    ensures
        json_string_list(text@) == match r {
            Some(v) => Some(v@.map_values(|x: String| x@)),
            None => None::<Seq<Seq<char>>>,
        },
{
    serde_json::from_str::<Vec<String>>(text).ok()
}

/// `str::to_lowercase`.
#[verifier::external_body]
fn to_lower(text: &str) -> (r: String)
    ensures
        r@ == lowercase_text(text@),
{
    text.to_lowercase()
}

/// The start times of the discovery windows to look up at `now`: the window `now` falls in
/// (rounded down to five minutes, toward zero), the one before if it started no more than
/// five minutes ago, and the next three.
pub open spec fn windows(now: int) -> Seq<int> {
    let rounded = trunc_div(now, WINDOW_SECS as int) * WINDOW_SECS;
    Seq::new(5, |k: int| rounded + (k - 1) * WINDOW_SECS).filter(|ts: int| ts >= now - WINDOW_SECS)
}

/// `{coin in lower case}-updown-{timeframe}m-{timestamp}`.
pub open spec fn slug_text(coin: Seq<char>, timeframe: u32, ts: int) -> Seq<char> {
    slug_of_lowercase(lowercase_text(coin), timeframe, ts)
}

pub open spec fn signed_decimal_text(v: int) -> Seq<char> {
    if v < 0 {
        "-"@ + decimal_text((-v) as nat)
    } else {
        decimal_text(v as nat)
    }
}

/// A market lookup to make: its slug, and the coin and timeframe it is for.
pub struct SlugQuery {
    pub slug: String,
    pub coin: String,
    pub timeframe: u32,
}

/// The lookup of `coin` at `timeframe` for the window starting at `ts`, as
/// (slug, coin, timeframe).
pub open spec fn query(ts: int, coin: Seq<char>, timeframe: u32) -> (Seq<char>, Seq<char>, u32) {
    (slug_text(coin, timeframe, ts), coin, timeframe)
}

pub open spec fn tf_queries(ts: int, coin: Seq<char>, tfs: Seq<u32>) -> Seq<(Seq<char>, Seq<char>, u32)>
    decreases tfs.len(),
{
    if tfs.len() == 0 {
        Seq::empty()
    } else {
        tf_queries(ts, coin, tfs.drop_last()).push(query(ts, coin, tfs.last()))
    }
}

pub open spec fn coin_queries(ts: int, coins: Seq<Seq<char>>, tfs: Seq<u32>) -> Seq<(Seq<char>, Seq<char>, u32)>
    decreases coins.len(),
{
    if coins.len() == 0 {
        Seq::empty()
    } else {
        coin_queries(ts, coins.drop_last(), tfs) + tf_queries(ts, coins.last(), tfs)
    }
}

pub open spec fn window_queries(ws: Seq<int>, coins: Seq<Seq<char>>, tfs: Seq<u32>) -> Seq<(Seq<char>, Seq<char>, u32)>
    decreases ws.len(),
{
    if ws.len() == 0 {
        Seq::empty()
    } else {
        window_queries(ws.drop_last(), coins, tfs) + coin_queries(ws.last(), coins, tfs)
    }
}

/// The lookups of one discovery pass at `now`: for each window, each coin, each timeframe,
/// in that order.
pub open spec fn plan(now: int, coins: Seq<Seq<char>>, tfs: Seq<u32>) -> Seq<(Seq<char>, Seq<char>, u32)> {
    window_queries(windows(now), coins, tfs)
}

pub open spec fn query_view(q: SlugQuery) -> (Seq<char>, Seq<char>, u32) {
    (q.slug@, q.coin@, q.timeframe)
}

/// The lookups of one discovery pass at `now` over the enabled coins and timeframes.
pub fn discovery_plan(now: i64, coins: &Vec<String>, tfs: &Vec<u32>) -> (r: Vec<SlugQuery>)
    requires
        in_range(now as int),
    ensures
        r@.map_values(|q: SlugQuery| query_view(q)) == plan(now as int, coins@.map_values(|c: String| c@),
            tfs@),
{
    let ws = discovery_windows(now);
    let ghost wsv = ws@.map_values(|t: i64| t as int);
    let ghost cv = coins@.map_values(|c: String| c@);
    let mut out: Vec<SlugQuery> = Vec::new();
    let mut wi: usize = 0;
    while wi < ws.len()
        invariant
            0 <= wi <= ws@.len(),
            wsv == ws@.map_values(|t: i64| t as int),
            cv == coins@.map_values(|c: String| c@),
            out@.map_values(|q: SlugQuery| query_view(q)) == window_queries(wsv.take(wi as int), cv, tfs@),
        decreases ws@.len() - wi,
    {
        let ts = ws[wi];
        let ghost before = out@.map_values(|q: SlugQuery| query_view(q));
        let mut ci: usize = 0;
        while ci < coins.len()
            invariant
                0 <= ci <= coins@.len(),
                cv == coins@.map_values(|c: String| c@),
                out@.map_values(|q: SlugQuery| query_view(q)) == before + coin_queries(ts as int,
                    cv.take(ci as int), tfs@),
            decreases coins@.len() - ci,
        {
            let coin = &coins[ci];
            let ghost mid = out@.map_values(|q: SlugQuery| query_view(q));
            let mut ti: usize = 0;
            while ti < tfs.len()
                invariant
                    0 <= ti <= tfs@.len(),
                    out@.map_values(|q: SlugQuery| query_view(q)) == mid + tf_queries(ts as int, coin@,
                        tfs@.take(ti as int)),
                decreases tfs@.len() - ti,
            {
                let tf = tfs[ti];
                let q = SlugQuery { slug: market_slug(coin.as_str(), tf, ts), coin: coin.clone(), timeframe: tf };
                let ghost qv = query_view(q);
                let ghost prev = out@;
                out.push(q);
                proof {
                    assert(out@ == prev.push(q));
                    assert(prev.map_values(|q: SlugQuery| query_view(q)) == mid + tf_queries(ts as int,
                        coin@, tfs@.take(ti as int)));
                    assert(tfs@.take(ti + 1).drop_last() =~= tfs@.take(ti as int));
                    assert(out@.map_values(|q: SlugQuery| query_view(q)) =~= prev.map_values(
                        |q: SlugQuery| query_view(q)).push(qv));
                    let t = tf_queries(ts as int, coin@, tfs@.take(ti as int));
                    assert((mid + t).push(qv) =~= mid + t.push(qv));
                    assert(tf_queries(ts as int, coin@, tfs@.take(ti + 1)) == t.push(qv));
                }
                ti = ti + 1;
            }
            proof {
                assert(tfs@.take(tfs@.len() as int) =~= tfs@);
                assert(cv.take(ci + 1).drop_last() =~= cv.take(ci as int));
                assert(cv.take(ci + 1).last() == coin@);
                assert(out@.map_values(|q: SlugQuery| query_view(q)) =~= before + coin_queries(ts as int,
                    cv.take(ci + 1), tfs@));
            }
            ci = ci + 1;
        }
        proof {
            assert(cv.take(coins@.len() as int) =~= cv);
            assert(wsv.take(wi + 1).drop_last() =~= wsv.take(wi as int));
            assert(wsv.take(wi + 1).last() == ts as int);
            assert(out@.map_values(|q: SlugQuery| query_view(q)) =~= window_queries(wsv.take(wi + 1), cv,
                tfs@));
        }
        wi = wi + 1;
    }
    proof {
        assert(wsv.take(ws@.len() as int) =~= wsv);
    }
    out
}

/// A market with this many seconds left is worth trading: more than 30 seconds, and less
/// than the market's length plus a minute.
pub open spec fn in_trading_window(seconds_remaining: int, timeframe: u32) -> bool {
    30 < seconds_remaining < timeframe as int * 60 + 60
}

pub fn trading_window_ok(seconds_remaining: i64, timeframe: u32) -> (r: bool)
    ensures
        r == in_trading_window(seconds_remaining as int, timeframe),
{
    seconds_remaining > 30 && (seconds_remaining as i128) < timeframe as i128 * 60 + 60
}

fn signed_decimal_string(v: i64) -> (s: String)
    ensures
        s@ == signed_decimal_text(v as int),
{
    if v < 0 {
        proof {
            reveal_strlit("-");
        }
        let mag = (-(v as i128)) as u128;
        String::from_str("-").concat(decimal_string(mag).as_str())
    } else {
        decimal_string(v as u128)
    }
}

/// `{coin_lower}-updown-{timeframe}m-{timestamp}` for an already lower-cased coin.
pub open spec fn slug_of_lowercase(coin_lower: Seq<char>, timeframe: u32, ts: int) -> Seq<char> {
    coin_lower + "-updown-"@ + decimal_text(timeframe as nat) + "m-"@ + signed_decimal_text(ts)
}

/// The slug for an already lower-cased coin.
pub fn slug_from_lowercase(coin_lower: &str, timeframe: u32, ts: i64) -> (s: String)
    ensures
        s@ == slug_of_lowercase(coin_lower@, timeframe, ts as int),
{
    String::from_str(coin_lower).concat("-updown-").concat(decimal_string(timeframe as u128).as_str())
        .concat("m-").concat(signed_decimal_string(ts).as_str())
}

/// The slug of the market for `coin` and `timeframe` opening at `ts`.
pub fn market_slug(coin: &str, timeframe: u32, ts: i64) -> (s: String)
    ensures
        s@ == slug_text(coin@, timeframe, ts as int),
{
    let lower = to_lower(coin);
    slug_from_lowercase(lower.as_str(), timeframe, ts)
}

/// The window start times to look up at `now`.
pub fn discovery_windows(now: i64) -> (r: Vec<i64>)
    requires
        in_range(now as int),
    ensures
        r@.map_values(|t: i64| t as int) == windows(now as int),
{
    let rounded = div_toward_zero(now as i128, WINDOW_SECS as i128) * WINDOW_SECS as i128;
    let ghost all = Seq::new(5, |k: int| rounded + (k - 1) * WINDOW_SECS);
    let ghost keep = |ts: int| ts >= now - WINDOW_SECS;
    let mut r: Vec<i64> = Vec::new();
    let mut k: i64 = 0;
    while k < 5
        invariant
            0 <= k <= 5,
            -1_000_000_000_000_000 - 300 <= rounded <= 1_000_000_000_000_000,
            all == Seq::new(5, |k: int| rounded + (k - 1) * WINDOW_SECS),
            keep == (|ts: int| ts >= now - WINDOW_SECS),
            r@.map_values(|t: i64| t as int) == all.take(k as int).filter(keep),
        decreases 5 - k,
    {
        let ts = (rounded + (k as i128 - 1) * WINDOW_SECS as i128) as i64;
        proof {
            assert(all.take(k + 1).drop_last() =~= all.take(k as int));
            reveal_with_fuel(Seq::filter, 1);
        }
        if ts as i128 >= now as i128 - WINDOW_SECS as i128 {
            r.push(ts);
            assert(r@.map_values(|t: i64| t as int) =~= all.take(k as int).filter(keep).push(ts as int));
        } else {
            assert(r@.map_values(|t: i64| t as int) =~= all.take(k as int).filter(keep));
        }
        k = k + 1;
    }
    assert(all.take(5) =~= all);
    r
}

/// Field as text, if it is a JSON string.
pub open spec fn text_of(v: JsonValue) -> Option<Seq<char>> {
    match v {
        JsonValue::Text(s) => Some(s@),
        _ => None,
    }
}

/// Traded volume: a numeric string read as a decimal, a JSON number as given, else 0.
pub open spec fn volume_of(v: JsonValue) -> int {
    match v {
        JsonValue::Text(s) => match decimal_micros(s@) {
            Some(x) => x,
            None => 0,
        },
        JsonValue::Number(n) => n as int,
        _ => 0,
    }
}

/// The end date text: `endDate` when present, else `endDateIso`; empty unless a string.
pub open spec fn end_date_of(raw: &RawMarket) -> Seq<char> {
    let f = if raw.end_date is Absent { raw.end_date_iso } else { raw.end_date };
    match text_of(f) {
        Some(s) => s,
        None => Seq::empty(),
    }
}

/// Token ids the record's `clobTokenIds` text holds, read as a JSON array of strings.
pub open spec fn token_ids_of(raw: &RawMarket) -> Option<Seq<Seq<char>>> {
    match text_of(raw.clob_token_ids) {
        Some(t) => json_string_list(t),
        None => None,
    }
}

/// Whether the record, whose token ids read as `ids`, describes a market that is active
/// and not closed, with a condition id and at least two token ids.
pub open spec fn usable_with(raw: &RawMarket, ids: Option<Seq<Seq<char>>>) -> bool {
    &&& raw.active == JsonValue::Bool(true)
    &&& raw.closed == JsonValue::Bool(false)
    &&& text_of(raw.condition_id) is Some
    &&& ids matches Some(v) && v.len() >= 2
}

pub open spec fn usable(raw: &RawMarket) -> bool {
    usable_with(raw, token_ids_of(raw))
}

/// The market a usable record describes, for the upper-cased coin `coin`, token ids `ids`,
/// end timestamp `end_ts` (if its end date could be read), `timeframe` and `now`.
pub open spec fn market_with(
    m: &Market,
    raw: &RawMarket,
    coin: Seq<char>,
    ids: Seq<Seq<char>>,
    end_ts: Option<int>,
    timeframe: u32,
    now: int,
) -> bool {
    &&& m.market_id@ == text_of(raw.condition_id)->0
    &&& m.condition_id@ == text_of(raw.condition_id)->0
    &&& m.question@ == (match text_of(raw.question) {
        Some(q) => q,
        None => Seq::empty(),
    })
    &&& m.coin@ == coin
    &&& m.timeframe == timeframe
    &&& m.up_token_id@ == ids[0]
    &&& m.down_token_id@ == ids[1]
    &&& m.seconds_remaining == (match end_ts {
        Some(t) => t - now,
        None => 0,
    })
    &&& m.volume == volume_of(raw.volume)
    &&& m.end_time@ == end_date_of(raw)
}

/// The market a usable record describes, looked up for `coin` and `timeframe` at `now`.
pub open spec fn market_of(m: &Market, raw: &RawMarket, coin: Seq<char>, timeframe: u32, now: int) -> bool {
    market_with(m, raw, uppercase_text(coin), token_ids_of(raw)->0, rfc3339_timestamp(end_date_of(raw)),
        timeframe, now)
}

fn field_text(v: &JsonValue) -> (r: Option<&String>)
    ensures
        match r {
            Some(s) => text_of(*v) == Some(s@),
            None => text_of(*v) is None,
        },
{
    match v {
        JsonValue::Text(s) => Some(s),
        _ => None,
    }
}

/// The end date text of a record: `endDate` when present, else `endDateIso`; empty unless
/// a string.
pub fn end_date_text(raw: &RawMarket) -> (r: String)
    ensures
        r@ == end_date_of(raw),
{
    let end_field = match raw.end_date {
        JsonValue::Absent => &raw.end_date_iso,
        _ => &raw.end_date,
    };
    match field_text(end_field) {
        Some(e) => e.clone(),
        None => String::new(),
    }
}

impl Market {
    /// Builds the market a raw record describes, given the pieces read from it: the
    /// upper-cased coin, the token ids (`None` if they could not be read) and the end
    /// timestamp (`None` if the end date could not be read). `None` when the record is not
    /// active, is closed, or lacks a condition id or two token ids; seconds remaining count
    /// from `now` to the end (0 without an end); the first token is UP.
    pub fn from_parts(
        raw: &RawMarket,
        coin: String,
        token_ids: Option<Vec<String>>,
        end_timestamp: Option<i64>,
        timeframe: u32,
        now: i64,
    ) -> (r: Option<Market>)
        requires
            -10_000_000_000_000 <= now <= 10_000_000_000_000,
            end_timestamp matches Some(t) ==> -10_000_000_000_000 <= t <= 10_000_000_000_000,
        ensures
            ({
                let ids = match token_ids {
                    Some(v) => Some(v@.map_values(|x: String| x@)),
                    None => None::<Seq<Seq<char>>>,
                };
                &&& r is Some <==> usable_with(raw, ids)
                &&& r matches Some(m) ==> market_with(&m, raw, coin@, ids->0, match end_timestamp {
                    Some(t) => Some(t as int),
                    None => None::<int>,
                }, timeframe, now as int) && m.wf()
            }),
    {
        let active = match raw.active {
            JsonValue::Bool(b) => b,
            _ => false,
        };
        let closed = match raw.closed {
            JsonValue::Bool(b) => b,
            _ => true,
        };
        if !active || closed {
            return None;
        }
        let condition_id = match field_text(&raw.condition_id) {
            Some(c) => c.clone(),
            None => return None,
        };
        let question = match field_text(&raw.question) {
            Some(q) => q.clone(),
            None => String::new(),
        };
        let token_ids = match token_ids {
            Some(v) => v,
            None => return None,
        };
        if token_ids.len() < 2 {
            proof {
                assert(token_ids@.map_values(|x: String| x@).len() == token_ids@.len());
            }
            return None;
        }
        let up_token_id = token_ids[0].clone();
        let down_token_id = token_ids[1].clone();
        let end_date = end_date_text(raw);
        let seconds_remaining = match end_timestamp {
            Some(t) => t - now,
            None => 0,
        };
        let volume = match &raw.volume {
            JsonValue::Text(s) => match parse_decimal(s.as_str()) {
                Some(x) => x,
                None => 0,
            },
            JsonValue::Number(n) => *n,
            _ => 0,
        };
        proof {
            crate::decimal::lemma_decimal_range(match &raw.volume { JsonValue::Text(s) => s@, _ => Seq::empty() });
            assert(token_ids@.map_values(|x: String| x@)[0] == token_ids@[0]@);
            assert(token_ids@.map_values(|x: String| x@)[1] == token_ids@[1]@);
        }
        Some(Market {
            market_id: condition_id.clone(),
            condition_id,
            question,
            coin,
            timeframe,
            up_token_id,
            down_token_id,
            seconds_remaining,
            volume,
            end_time: end_date,
        })
    }

    /// Builds the market a raw record describes (see `from_parts`): the coin is upper-cased,
    /// the `clobTokenIds` text is read as a JSON array of strings and the end date as an
    /// RFC 3339 date-time.
    pub fn from_raw(raw: &RawMarket, coin: &str, timeframe: u32, now: i64) -> (r: Option<Market>)
        requires
            -10_000_000_000_000 <= now <= 10_000_000_000_000,
        ensures
            r is Some <==> usable(raw),
            r matches Some(m) ==> market_of(&m, raw, coin@, timeframe, now as int) && m.wf(),
    {
        let upper = to_upper(coin);
        let token_ids = match field_text(&raw.clob_token_ids) {
            Some(t) => parse_string_list(t.as_str()),
            None => None,
        };
        let end = end_date_text(raw);
        let end_timestamp = parse_rfc3339_timestamp(end.as_str());
        Self::from_parts(raw, upper, token_ids, end_timestamp, timeframe, now)
    }
}

} // verus!
