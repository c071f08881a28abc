use polybot_rust::data::events::{first_market, Json, JsonMember};
use polybot_rust::data::gamma::{discovery_plan, discovery_windows, market_slug, trading_window_ok,
    JsonValue, Market, RawMarket};

fn raw() -> RawMarket {
    RawMarket {
        active: JsonValue::Bool(true),
        closed: JsonValue::Bool(false),
        condition_id: JsonValue::Text("0xabc".to_string()),
        question: JsonValue::Text("Bitcoin up?".to_string()),
        clob_token_ids: JsonValue::Text("[\"111\", \"222\"]".to_string()),
        end_date: JsonValue::Text("2024-05-23T08:05:00Z".to_string()),
        end_date_iso: JsonValue::Absent,
        volume: JsonValue::Text("42.5".to_string()),
    }
}

const END: i64 = 1_716_451_500;

#[test]
fn windows_around_now() {
    assert_eq!(discovery_windows(1_716_451_234), vec![1_716_451_200, 1_716_451_500, 1_716_451_800, 1_716_452_100]);
    assert_eq!(discovery_windows(1_716_451_200), vec![1_716_450_900, 1_716_451_200, 1_716_451_500, 1_716_451_800, 1_716_452_100]);
}

#[test]
fn slugs_name_coin_timeframe_and_window() {
    assert_eq!(market_slug("BTC", 5, 1_716_451_200), "btc-updown-5m-1716451200");
    assert_eq!(market_slug("Eth", 15, -300), "eth-updown-15m--300");
}

#[test]
fn plan_covers_windows_coins_timeframes() {
    let coins = vec!["BTC".to_string(), "ETH".to_string()];
    let plan = discovery_plan(1_716_451_234, &coins, &vec![5, 15]);
    assert_eq!(plan.len(), 16);
    assert_eq!(plan[0].slug, "btc-updown-5m-1716451200");
    assert_eq!(plan[1].slug, "btc-updown-15m-1716451200");
    assert_eq!(plan[2].slug, "eth-updown-5m-1716451200");
    assert_eq!(plan[2].coin, "ETH");
    assert_eq!(plan[3].timeframe, 15);
    assert_eq!(plan[4].slug, "btc-updown-5m-1716451500");
    assert!(discovery_plan(1_716_451_234, &vec![], &vec![5]).is_empty());
}

#[test]
fn trading_window_bounds() {
    assert!(trading_window_ok(31, 5));
    assert!(!trading_window_ok(30, 5));
    assert!(trading_window_ok(359, 5));
    assert!(!trading_window_ok(360, 5));
}

#[test]
fn builds_market_from_record() {
    let m = Market::from_raw(&raw(), "btc", 5, END - 120).unwrap();
    assert_eq!(m.market_id, "0xabc");
    assert_eq!(m.condition_id, "0xabc");
    assert_eq!(m.question, "Bitcoin up?");
    assert_eq!(m.coin, "BTC");
    assert_eq!(m.timeframe, 5);
    assert_eq!(m.up_token_id, "111");
    assert_eq!(m.down_token_id, "222");
    assert_eq!(m.seconds_remaining, 120);
    assert_eq!(m.volume, 42_500_000);
    assert_eq!(m.end_time, "2024-05-23T08:05:00Z");
}

#[test]
fn rejects_inactive_or_incomplete_records() {
    let mut r = raw();
    r.closed = JsonValue::Bool(true);
    assert!(Market::from_raw(&r, "BTC", 5, END).is_none());
    let mut r = raw();
    r.closed = JsonValue::Absent;
    assert!(Market::from_raw(&r, "BTC", 5, END).is_none());
    let mut r = raw();
    r.active = JsonValue::Other;
    assert!(Market::from_raw(&r, "BTC", 5, END).is_none());
    let mut r = raw();
    r.clob_token_ids = JsonValue::Text("[\"1\"]".to_string());
    assert!(Market::from_raw(&r, "BTC", 5, END).is_none());
    let mut r = raw();
    r.clob_token_ids = JsonValue::Text("not json".to_string());
    assert!(Market::from_raw(&r, "BTC", 5, END).is_none());
    let mut r = raw();
    r.condition_id = JsonValue::Number(5);
    assert!(Market::from_raw(&r, "BTC", 5, END).is_none());
}

#[test]
fn end_date_and_volume_fallbacks() {
    let mut r = raw();
    r.end_date = JsonValue::Absent;
    r.end_date_iso = JsonValue::Text("2024-05-23T08:10:00+00:00".to_string());
    r.volume = JsonValue::Number(7_000_000);
    r.question = JsonValue::Other;
    let m = Market::from_raw(&r, "BTC", 5, END).unwrap();
    assert_eq!(m.seconds_remaining, 300);
    assert_eq!(m.volume, 7_000_000);
    assert_eq!(m.question, "");
    let mut r = raw();
    r.end_date = JsonValue::Other;
    r.end_date_iso = JsonValue::Text("2024-05-23T08:10:00Z".to_string());
    r.volume = JsonValue::Text("lots".to_string());
    let m = Market::from_raw(&r, "BTC", 5, END).unwrap();
    assert_eq!(m.seconds_remaining, 0);
    assert_eq!(m.end_time, "");
    assert_eq!(m.volume, 0);
}

#[test]
fn slug_of_lowercase_coin() {
    assert_eq!(polybot_rust::data::gamma::slug_from_lowercase("btc", 60, 1_716_451_200), "btc-updown-60m-1716451200");
}

#[test]
fn market_from_parsed_parts() {
    let ids = Some(vec!["7".to_string(), "8".to_string()]);
    let m = Market::from_parts(&raw(), "XBT".to_string(), ids, Some(END + 42), 15, END).unwrap();
    assert_eq!(m.coin, "XBT");
    assert_eq!(m.up_token_id, "7");
    assert_eq!(m.down_token_id, "8");
    assert_eq!(m.seconds_remaining, 42);
    assert_eq!(m.timeframe, 15);
    let m = Market::from_parts(&raw(), "XBT".to_string(), Some(vec!["7".to_string(), "8".to_string()]), None, 15, END).unwrap();
    assert_eq!(m.seconds_remaining, 0);
    assert!(Market::from_parts(&raw(), "XBT".to_string(), None, None, 15, END).is_none());
    assert!(Market::from_parts(&raw(), "XBT".to_string(), Some(vec!["7".to_string()]), None, 15, END).is_none());
}

fn member(key: &str, value: Json) -> JsonMember {
    JsonMember { key: key.to_string(), value }
}

fn market_object() -> Json {
    Json::Object(vec![
        member("active", Json::Bool(true)),
        member("closed", Json::Bool(false)),
        member("conditionId", Json::Text("0xabc".to_string())),
        member("question", Json::Text("Up or down?".to_string())),
        member("clobTokenIds", Json::Text("[\"1\",\"2\"]".to_string())),
        member("volume", Json::Number(1_500_000)),
        member("endDate", Json::Null),
    ])
}

#[test]
fn first_market_of_events_envelope() {
    let wrapped = Json::Object(vec![member(
        "events",
        Json::Array(vec![Json::Object(vec![member("markets", Json::Array(vec![market_object()]))])]),
    )]);
    let raw = first_market(&wrapped).unwrap();
    assert!(matches!(raw.active, JsonValue::Bool(true)));
    assert!(matches!(raw.closed, JsonValue::Bool(false)));
    assert!(matches!(raw.condition_id, JsonValue::Text(ref t) if t == "0xabc"));
    assert!(matches!(raw.volume, JsonValue::Number(1_500_000)));
    assert!(matches!(raw.end_date, JsonValue::Other));
    assert!(matches!(raw.end_date_iso, JsonValue::Absent));
    let bare = Json::Array(vec![Json::Object(vec![member("markets", Json::Array(vec![market_object()]))])]);
    assert!(first_market(&bare).is_some());
}

#[test]
fn first_market_missing_pieces() {
    assert!(first_market(&Json::Array(vec![])).is_none());
    assert!(first_market(&Json::Object(vec![member("events", Json::Null)])).is_none());
    let no_markets = Json::Array(vec![Json::Object(vec![member("markets", Json::Array(vec![]))])]);
    assert!(first_market(&no_markets).is_none());
    assert!(first_market(&Json::Text("x".to_string())).is_none());
}
