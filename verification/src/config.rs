//! Bot configuration.

use vstd::prelude::*;
use crate::text::{same_text, trim, trimmed, to_upper, uppercase_text};
use crate::decimal::{is_digit, all_digits, digits_value, decimal_micros, parse_decimal,
    lemma_digits_push, lemma_digits_grow};

verus! {

pub struct Config {
    /// `"live"` or `"paper"`.
    pub trading_mode: String,
    pub private_key: String,
    pub proxy_wallet: String,
    /// 3 for V2 accounts.
    pub signature_type: u8,
    pub api_key: Option<String>,
    pub api_secret: Option<String>,
    pub passphrase: Option<String>,
    pub enabled_coins: Vec<String>,
    pub enabled_timeframes: Vec<u32>,
    /// Starting balance in micro-dollars.
    pub starting_balance: i64,
    /// Smallest order in micro-dollars ($1.00 for fill-or-kill).
    pub min_order_size: i64,
    pub clob_url: String,
    pub gamma_url: String,
    pub chain_id: u64,
}

impl Config {
    /// Whether orders go to the exchange rather than to paper trading.
    pub fn is_live(&self) -> (r: bool)
        ensures
            r == (self.trading_mode@ == "live"@),
    {
        same_text(self.trading_mode.as_str(), "live")
    }
}

/// The pieces of `s` between commas, as `str::split(',')` gives them (a text without a
/// comma is a single piece).
pub open spec fn comma_pieces(s: Seq<char>) -> Seq<Seq<char>>
    decreases s.len(),
{
    if s.len() == 0 {
        seq![Seq::empty()]
    } else if s.last() == ',' {
        comma_pieces(s.drop_last()).push(Seq::empty())
    } else {
        let p = comma_pieces(s.drop_last());
        p.update(p.len() - 1, p.last().push(s.last()))
    }
}

proof fn lemma_comma_pieces_nonempty(s: Seq<char>)
    ensures
        comma_pieces(s).len() >= 1,
    decreases s.len(),
{
    if s.len() > 0 {
        lemma_comma_pieces_nonempty(s.drop_last());
    }
}

/// Splits `s` at its commas.
pub fn split_commas(s: &str) -> (r: Vec<&str>)
    ensures
        r@.map_values(|x: &str| x@) == comma_pieces(s@),
{
    let n = s.unicode_len();
    let mut out: Vec<&str> = Vec::new();
    let mut start: usize = 0;
    let mut i: usize = 0;
    proof {
        assert(s@.take(0) =~= Seq::<char>::empty());
        assert(out@.map_values(|x: &str| x@).push(s@.subrange(0, 0)) =~= seq![Seq::<char>::empty()]);
    }
    while i < n
        invariant
            n == s@.len(),
            0 <= start <= i <= n,
            out@.map_values(|x: &str| x@).push(s@.subrange(start as int, i as int)) == comma_pieces(
                s@.take(i as int),
            ),
        decreases n - i,
    {
        let c = s.get_char(i);
        let ghost before = out@.map_values(|x: &str| x@);
        proof {
            assert(s@.take(i + 1).drop_last() =~= s@.take(i as int));
            assert(s@.take(i + 1).last() == c);
            lemma_comma_pieces_nonempty(s@.take(i as int));
        }
        if c == ',' {
            let ghost old_start = start;
            out.push(s.substring_char(start, i));
            start = i + 1;
            proof {
                assert(s@.subrange(start as int, (i + 1) as int) =~= Seq::<char>::empty());
                assert(out@.map_values(|x: &str| x@) =~= before.push(s@.subrange(old_start as int,
                    i as int)));
            }
        } else {
            proof {
                let p = comma_pieces(s@.take(i as int));
                assert(p =~= before.push(s@.subrange(start as int, i as int)));
                assert(s@.subrange(start as int, (i + 1) as int) =~= s@.subrange(start as int, i as int).push(c));
                assert(p.update(p.len() - 1, p.last().push(c)) =~= before.push(s@.subrange(start as int, (i + 1) as int)));
            }
        }
        i = i + 1;
    }
    out.push(s.substring_char(start, n));
    proof {
        assert(s@.take(n as int) =~= s@);
    }
    out
}

/// Value of an unsigned integer as `u64::from_str` reads it: an optional `+`, then at least
/// one digit, and no more than `max`.
pub open spec fn unsigned_value(s: Seq<char>, max: int) -> Option<int> {
    let digits = if s.len() > 0 && s[0] == '+' { s.skip(1) } else { s };
    if digits.len() > 0 && all_digits(digits) && digits_value(digits) <= max {
        Some(digits_value(digits))
    } else {
        None
    }
}

/// Reads an unsigned integer no larger than `max`.
pub fn parse_unsigned(s: &str, max: u64) -> (r: Option<u64>)
    requires
        max < u64::MAX / 10,
    ensures
        match r {
            Some(v) => unsigned_value(s@, max as int) == Some(v as int),
            None => unsigned_value(s@, max as int) is None,
        },
{
    let n = s.unicode_len();
    let start: usize = if n > 0 && s.get_char(0) == '+' { 1 } else { 0 };
    let ghost digits = if s@.len() > 0 && s@[0] == '+' { s@.skip(1) } else { s@ };
    assert(digits =~= s@.subrange(start as int, n as int));
    if start == n {
        assert(digits.len() == 0);
        return None;
    }
    let mut i: usize = start;
    let mut acc: u64 = 0;
    while i < n
        invariant
            n == s@.len(),
            start < n,
            start <= i <= n,
            digits == s@.subrange(start as int, n as int),
            digits == (if s@.len() > 0 && s@[0] == '+' { s@.skip(1) } else { s@ }),
            all_digits(digits.take(i - start)),
            acc == digits_value(digits.take(i - start)),
            acc <= max,
            max < u64::MAX / 10,
        decreases n - i,
    {
        let c = s.get_char(i);
        let ghost j = i - start;
        assert(digits[j] == c);
        if !('0' <= c && c <= '9') {
            proof {
                assert(!is_digit(digits[j]));
            }
            return None;
        }
        proof {
            lemma_digits_push(digits, j);
            assert(all_digits(digits.take(j + 1))) by {
                assert forall|k: int| 0 <= k < j + 1 implies is_digit(#[trigger] digits.take(j + 1)[k]) by {
                    if k < j {
                        assert(digits.take(j + 1)[k] == digits.take(j)[k]);
                    }
                }
            }
        }
        let next = acc * 10 + (c as u32 - '0' as u32) as u64;
        if next > max {
            proof {
                if all_digits(digits) {
                    lemma_digits_grow(digits, j + 1);
                }
            }
            return None;
        }
        acc = next;
        i = i + 1;
    }
    proof {
        assert(digits.take(n - start) =~= digits);
    }
    Some(acc)
}

/// Coins to trade: the comma-separated names, trimmed and upper-cased.
pub open spec fn coin_list(text: Seq<char>) -> Seq<Seq<char>> {
    comma_pieces(text).map_values(|p: Seq<char>| uppercase_text(trimmed(p)))
}

/// The values of those pieces that read (once trimmed) as a `u32`, in order.
pub open spec fn timeframes_of(pieces: Seq<Seq<char>>) -> Seq<u32>
    decreases pieces.len(),
{
    if pieces.len() == 0 {
        Seq::empty()
    } else {
        let rest = timeframes_of(pieces.drop_last());
        match unsigned_value(trimmed(pieces.last()), u32::MAX as int) {
            Some(v) => rest.push(v as u32),
            None => rest,
        }
    }
}

/// Timeframes to trade: the comma-separated pieces that read (once trimmed) as a `u32`.
pub open spec fn timeframe_list(text: Seq<char>) -> Seq<u32> {
    timeframes_of(comma_pieces(text))
}

/// The coin list of a setting such as `"btc, eth"`.
pub fn parse_coins(text: &str) -> (r: Vec<String>)
    ensures
        r@.map_values(|c: String| c@) == coin_list(text@),
{
    let pieces = split_commas(text);
    let ghost pv = pieces@.map_values(|x: &str| x@);
    let mut out: Vec<String> = Vec::new();
    let mut i: usize = 0;
    while i < pieces.len()
        invariant
            0 <= i <= pieces@.len(),
            pv == pieces@.map_values(|x: &str| x@),
            out@.len() == i,
            forall|k: int| 0 <= k < i ==> (#[trigger] out@[k])@ == uppercase_text(trimmed(pv[k])),
        decreases pieces@.len() - i,
    {
        let c = to_upper(trim(pieces[i]));
        out.push(c);
        i = i + 1;
    }
    proof {
        assert(out@.map_values(|c: String| c@) =~= coin_list(text@));
    }
    out
}

/// The timeframe list of a setting such as `"5, 15"`; pieces that do not read as a `u32`
/// are left out.
pub fn parse_timeframes(text: &str) -> (r: Vec<u32>)
    ensures
        r@ == timeframe_list(text@),
{
    let pieces = split_commas(text);
    let ghost pv = pieces@.map_values(|x: &str| x@);
    let mut out: Vec<u32> = Vec::new();
    let mut i: usize = 0;
    while i < pieces.len()
        invariant
            0 <= i <= pieces@.len(),
            pv == pieces@.map_values(|x: &str| x@),
            out@ == timeframes_of(pv.take(i as int)),
        decreases pieces@.len() - i,
    {
        proof {
            assert(pv.take(i + 1).drop_last() =~= pv.take(i as int));
            assert(pv.take(i + 1).last() == pieces@[i as int]@);
        }
        match parse_unsigned(trim(pieces[i]), 4_294_967_295) {
            Some(v) => {
                out.push(v as u32);
            },
            None => {},
        }
        i = i + 1;
    }
    proof {
        assert(pv.take(pieces@.len() as int) =~= pv);
    }
    out
}

/// The account signature type of a setting: a `u8`, else 3.
pub fn parse_signature_type(text: &str) -> (r: u8)
    ensures
        r == (match unsigned_value(text@, 255) {
            Some(v) => v,
            None => 3,
        }),
{
    match parse_unsigned(text, 255) {
        Some(v) => v as u8,
        None => 3,
    }
}

/// The starting balance of a setting, in micro-dollars: a decimal, else $5.
pub fn parse_starting_balance(text: &str) -> (r: i64)
    ensures
        r == (match decimal_micros(text@) {
            Some(v) => v,
            None => 5_000_000,
        }),
{
    match parse_decimal(text) {
        Some(v) => v,
        None => 5_000_000,
    }
}

/// The raw settings a configuration is built from, as read from the environment (`None`
/// where a variable is not set).
pub struct Settings {
    pub trading_mode: Option<String>,
    pub private_key: Option<String>,
    pub proxy_wallet: Option<String>,
    pub signature_type: Option<String>,
    pub api_key: Option<String>,
    pub api_secret: Option<String>,
    pub passphrase: Option<String>,
    pub enabled_coins: Option<String>,
    pub enabled_timeframes: Option<String>,
    pub starting_balance: Option<String>,
}

/// The text of a setting, or `default` when it is not set.
pub open spec fn setting_or(v: Option<String>, default: Seq<char>) -> Seq<char> {
    match v {
        Some(t) => t@,
        None => default,
    }
}

fn text_or(v: Option<String>, default: &str) -> (r: String)
    ensures
        r@ == setting_or(v, default@),
{
    match v {
        Some(t) => t,
        None => String::from_str(default),
    }
}

impl Config {
    /// The configuration of the given settings, with the defaults for those not set:
    /// paper trading, signature type 3, BTC, five-minute markets and a $5 balance; orders
    /// of at least $1 on the Polygon exchange endpoints.
    pub fn from_settings(s: Settings) -> (c: Config)
        ensures
            c.trading_mode@ == setting_or(s.trading_mode, "paper"@),
            c.private_key@ == setting_or(s.private_key, ""@),
            c.proxy_wallet@ == setting_or(s.proxy_wallet, ""@),
            c.signature_type == (match unsigned_value(setting_or(s.signature_type, "3"@), 255) {
                Some(v) => v,
                None => 3,
            }),
            c.api_key == s.api_key,
            c.api_secret == s.api_secret,
            c.passphrase == s.passphrase,
            c.enabled_coins@.map_values(|x: String| x@) == coin_list(setting_or(s.enabled_coins, "BTC"@)),
            c.enabled_timeframes@ == timeframe_list(setting_or(s.enabled_timeframes, "5"@)),
            c.starting_balance == (match decimal_micros(setting_or(s.starting_balance, "5.0"@)) {
                Some(v) => v,
                None => 5_000_000,
            }),
            c.min_order_size == 1_000_000,
            c.clob_url@ == "https://clob-v2.polymarket.com"@,
            c.gamma_url@ == "https://gamma-api.polymarket.com"@,
            c.chain_id == 137,
    {
        let trading_mode = text_or(s.trading_mode, "paper");
        let private_key = text_or(s.private_key, "");
        let proxy_wallet = text_or(s.proxy_wallet, "");
        let sig = text_or(s.signature_type, "3");
        let coins = text_or(s.enabled_coins, "BTC");
        let timeframes = text_or(s.enabled_timeframes, "5");
        let balance = text_or(s.starting_balance, "5.0");
        Config {
            trading_mode,
            private_key,
            proxy_wallet,
            signature_type: parse_signature_type(sig.as_str()),
            api_key: s.api_key,
            api_secret: s.api_secret,
            passphrase: s.passphrase,
            enabled_coins: parse_coins(coins.as_str()),
            enabled_timeframes: parse_timeframes(timeframes.as_str()),
            starting_balance: parse_starting_balance(balance.as_str()),
            min_order_size: 1_000_000,
            clob_url: String::from_str("https://clob-v2.polymarket.com"),
            gamma_url: String::from_str("https://gamma-api.polymarket.com"),
            chain_id: 137,
        }
    }
}

} // verus!
