//! The events API's response: a JSON document, and the market record it leads to.

use vstd::prelude::*;
use crate::data::gamma::{JsonValue, RawMarket};
use crate::text::same_text;

verus! {

/// A JSON document. Numbers are held in micro-units; an object keeps its members in order.
pub enum Json {
    Null,
    Bool(bool),
    Number(i64),
    Text(String),
    Array(Vec<Json>),
    Object(Vec<JsonMember>),
}

/// One `key: value` member of a JSON object.
pub struct JsonMember {
    pub key: String,
    pub value: Json,
}

/// The value of the first member of `members` at or after `i` whose key is `key`.
pub open spec fn lookup_from(members: Seq<JsonMember>, key: Seq<char>, i: int) -> Option<Json>
    decreases members.len() - i,
{
    if i < 0 || i >= members.len() {
        None
    } else if members[i].key@ == key {
        Some(members[i].value)
    } else {
        lookup_from(members, key, i + 1)
    }
}

/// The member `key` of `v`, when `v` is an object that has one.
pub open spec fn get(v: Json, key: Seq<char>) -> Option<Json> {
    match v {
        Json::Object(members) => lookup_from(members@, key, 0),
        _ => None,
    }
}

/// `r` is the flat reading of the optional value `v`: absent, a boolean, a text, a
/// number, or something else (`null`, an array or an object).
pub open spec fn flat_reading(v: Option<Json>, r: JsonValue) -> bool {
    match v {
        None => r is Absent,
        Some(Json::Bool(b)) => r == JsonValue::Bool(b),
        Some(Json::Number(n)) => r == JsonValue::Number(n),
        Some(Json::Text(s)) => r matches JsonValue::Text(t) && t@ == s@,
        Some(_) => r is Other,
    }
}

/// `r` holds the fields of the market object `m`.
pub open spec fn market_record(m: Json, r: RawMarket) -> bool {
    &&& flat_reading(get(m, "active"@), r.active)
    &&& flat_reading(get(m, "closed"@), r.closed)
    &&& flat_reading(get(m, "conditionId"@), r.condition_id)
    &&& flat_reading(get(m, "question"@), r.question)
    &&& flat_reading(get(m, "clobTokenIds"@), r.clob_token_ids)
    &&& flat_reading(get(m, "endDate"@), r.end_date)
    &&& flat_reading(get(m, "endDateIso"@), r.end_date_iso)
    &&& flat_reading(get(m, "volume"@), r.volume)
}

/// The events of a response: the document itself when it is an array, else its
/// `events` member when that is an array.
pub open spec fn events_of(data: Json) -> Option<Seq<Json>> {
    match data {
        Json::Array(items) => Some(items@),
        _ => match get(data, "events"@) {
            Some(Json::Array(items)) => Some(items@),
            _ => None,
        },
    }
}

/// The first market of the first event, when there is one.
pub open spec fn first_market_of(data: Json) -> Option<Json> {
    match events_of(data) {
        Some(events) => if events.len() > 0 {
            match get(events[0], "markets"@) {
                Some(Json::Array(markets)) => if markets@.len() > 0 {
                    Some(markets@[0])
                } else {
                    None
                },
                _ => None,
            }
        } else {
            None
        },
        None => None,
    }
}

proof fn lemma_lookup_skip(members: Seq<JsonMember>, key: Seq<char>, a: int, i: int)
    requires
        0 <= a <= i <= members.len(),
        forall|j: int| a <= j < i ==> members[j].key@ != key,
    ensures
        lookup_from(members, key, a) == lookup_from(members, key, i),
    decreases i - a,
{
    if a < i {
        lemma_lookup_skip(members, key, a + 1, i);
    }
}

/// The member `key` of `v` (see `get`).
pub fn get_member<'a>(v: &'a Json, key: &str) -> (r: Option<&'a Json>)
    ensures
        r matches Some(x) ==> get(*v, key@) == Some(*x),
        r is None ==> get(*v, key@) is None,
{
    match v {
        Json::Object(members) => {
            let mut i: usize = 0;
            while i < members.len()
                invariant
                    0 <= i <= members@.len(),
                    get(*v, key@) == lookup_from(members@, key@, 0),
                    forall|j: int| 0 <= j < i ==> (#[trigger] members@[j]).key@ != key@,
                decreases members@.len() - i,
            {
                if same_text(members[i].key.as_str(), key) {
                    proof {
                        lemma_lookup_skip(members@, key@, 0, i as int);
                        assert(lookup_from(members@, key@, i as int) == Some(members@[i as int].value));
                    }
                    return Some(&members[i].value);
                }
                i = i + 1;
            }
            proof {
                lemma_lookup_skip(members@, key@, 0, i as int);
            }
            None
        },
        _ => None,
    }
}

/// The flat reading of the member `key` of `v` (see `flat_reading`).
pub fn field_value(v: &Json, key: &str) -> (r: JsonValue)
    ensures
        flat_reading(get(*v, key@), r),
{
    match get_member(v, key) {
        None => JsonValue::Absent,
        Some(Json::Bool(b)) => JsonValue::Bool(*b),
        Some(Json::Number(n)) => JsonValue::Number(*n),
        Some(Json::Text(s)) => JsonValue::Text(s.clone()),
        Some(_) => JsonValue::Other,
    }
}

/// The market record held by the market object `m`.
pub fn market_record_of(m: &Json) -> (r: RawMarket)
    ensures
        market_record(*m, r),
{
    RawMarket {
        active: field_value(m, "active"),
        closed: field_value(m, "closed"),
        condition_id: field_value(m, "conditionId"),
        question: field_value(m, "question"),
        clob_token_ids: field_value(m, "clobTokenIds"),
        end_date: field_value(m, "endDate"),
        end_date_iso: field_value(m, "endDateIso"),
        volume: field_value(m, "volume"),
    }
}

/// The record of the first market of the first event of a response, when there is one.
pub fn first_market(data: &Json) -> (r: Option<RawMarket>)
    ensures
        match first_market_of(*data) {
            Some(m) => r matches Some(raw) && market_record(m, raw),
            None => r is None,
        },
{
    let events: &Vec<Json> = match data {
        Json::Array(items) => items,
        _ => match get_member(data, "events") {
            Some(Json::Array(items)) => items,
            _ => {
                return None;
            },
        },
    };
    if events.len() == 0 {
        return None;
    }
    let markets: &Vec<Json> = match get_member(&events[0], "markets") {
        Some(Json::Array(items)) => items,
        _ => {
            return None;
        },
    };
    if markets.len() == 0 {
        return None;
    }
    Some(market_record_of(&markets[0]))
}

} // verus!
