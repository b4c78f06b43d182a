//! The market-data provider's responses, reduced to plain values: symbol
//! search results, and daily price and exchange-rate histories. The transport
//! lives outside this crate; these functions take the response status and
//! body and are verified from there on.

use vstd::prelude::*;

use crate::date::Date;
use crate::parse::{dec_str, parse_date, parse_date_spec, parse_decimal_micro, parse_decimal_spec, u16_to_string};

verus! {

/// A failure talking to or reading from the market-data provider.
#[derive(Clone, Debug, PartialEq)]
pub struct AlphaVantageError {
    pub message: String,
}

#[derive(Clone, Debug, PartialEq)]
pub struct AlphaVantageSymbolSearchResult {
    pub symbol: String,
    pub currency: String,
}

#[derive(Clone, Debug, PartialEq)]
pub struct AlphaVantageBestMatches {
    pub best_matches: Vec<AlphaVantageSymbolSearchResult>,
}

#[derive(Clone, Copy, Debug, PartialEq, Eq, Structural)]
pub struct AlphaVantageCurrencyDailyResult {
    /// Closing rate in micro-units.
    pub close: i128,
}

#[derive(Clone, Debug, PartialEq)]
pub struct AlphaVantageCurrencyResult {
    /// One closing rate per trading day, ordered by the provider's keys.
    pub results: Vec<(Date, AlphaVantageCurrencyDailyResult)>,
}

#[derive(Clone, Copy, Debug, PartialEq, Eq, Structural)]
pub struct AlphaVantageStockDailyResult {
    /// Closing price in micro-units.
    pub close: i128,
}

#[derive(Clone, Debug, PartialEq)]
pub struct AlphaVantageStockResult {
    /// One closing price per trading day, ordered by the provider's keys.
    pub results: Vec<(Date, AlphaVantageStockDailyResult)>,
}

/// The symbol matches a symbol-search response body carries: each match's
/// symbol and currency, in document order; `None` when the body is not such a
/// response. A function of the body alone.
pub uninterp spec fn best_matches_of(body: Seq<char>) -> Option<Seq<(Seq<char>, Seq<char>)>>;

/// The `(date, close)` text pairs under the named time-series key of a
/// history response body, ordered by date key; `None` when the body has no
/// such shape. A function of the body and the key alone.
pub uninterp spec fn time_series_of(body: Seq<char>, key: Seq<char>) -> Option<
    Seq<(Seq<char>, Seq<char>)>,
>;

/// Relies on serde_json::from_str: decodes the symbol-search body into maps
/// of strings and moves each match's fields out, converting only.
#[verifier::external_body]
fn parse_best_matches(body: &str) -> (r: Option<Vec<AlphaVantageSymbolSearchResult>>)
    ensures
        match r {
            Some(v) => best_matches_of(body@) == Some(
                v@.map_values(|x: AlphaVantageSymbolSearchResult| (x.symbol@, x.currency@)),
            ),
            None => best_matches_of(body@) is None,
        },
{
    let m: std::collections::BTreeMap<String, Vec<std::collections::BTreeMap<String, String>>> =
        serde_json::from_str(body).ok()?;
    let arr = m.get("bestMatches")?;
    let mut out = Vec::new();
    for e in arr {
        out.push(
            AlphaVantageSymbolSearchResult {
                symbol: e.get("1. symbol")?.clone(),
                currency: e.get("8. currency")?.clone(),
            },
        );
    }
    Some(out)
}

/// Relies on serde_json::from_str and serde_json::Value::{get, as_object}:
/// decodes a history body, takes the object under `key`, and moves each
/// entry's date key and `"4. close"` text out, converting only. The backing
/// map iterates sorted by key, so the order is a function of the body.
#[verifier::external_body]
fn parse_time_series(body: &str, key: &str) -> (r: Option<Vec<(String, String)>>)
    ensures
        match r {
            Some(v) => time_series_of(body@, key@) == Some(
                v@.map_values(|x: (String, String)| (x.0@, x.1@)),
            ),
            None => time_series_of(body@, key@) is None,
        },
{
    let root: std::collections::BTreeMap<String, serde_json::Value> =
        serde_json::from_str(body).ok()?;
    let ts = root.get(key)?.as_object()?;
    let mut out = Vec::new();
    for (date, quote) in ts {
        let close = match quote.get("4. close")? {
            serde_json::Value::String(x) => x.clone(),
            serde_json::Value::Number(x) => x.to_string(),
            _ => return None,
        };
        out.push((date.clone(), close));
    }
    Some(out)
}

/// The error for a non-success transport status.
fn status_error(status: u16) -> (r: AlphaVantageError)
    ensures
        r.message@ == "status code: "@ + dec_str(status as int),
{
    let mut message = String::from_str("status code: ");
    let digits = u16_to_string(status);
    message.append(digits.as_str());
    AlphaVantageError { message }
}

/// The symbol search, from the provider's response: the matched symbols and
/// their currencies, exactly as the body lists them. Fails on a non-success
/// status and on a body that is not a symbol-search response.
pub fn search_alphavantage_symbol(status: u16, body: &str) -> (r: Result<
    AlphaVantageBestMatches,
    AlphaVantageError,
>)
    ensures
        (r is Ok) == (status == 200 && best_matches_of(body@) is Some),
        match r {
            Ok(v) => best_matches_of(body@) == Some(
                v.best_matches@.map_values(
                    |x: AlphaVantageSymbolSearchResult| (x.symbol@, x.currency@),
                ),
            ),
            Err(e) => (status != 200 ==> e.message@ == "status code: "@ + dec_str(status as int))
                && (status == 200 ==> e.message@ == "unexpected response body"@),
        },
{
    if status != 200 {
        return Err(status_error(status));
    }
    match parse_best_matches(body) {
        Some(v) => Ok(AlphaVantageBestMatches { best_matches: v }),
        None => Err(AlphaVantageError { message: String::from_str("unexpected response body") }),
    }
}

/// Whether a `(date, close)` text pair parses as a calendar date and a plain
/// decimal amount.
pub open spec fn quote_parses(e: (Seq<char>, Seq<char>)) -> bool {
    parse_date_spec(e.0) is Some && parse_decimal_spec(e.1) is Some
}

pub open spec fn all_quotes_parse(es: Seq<(Seq<char>, Seq<char>)>) -> bool {
    forall|i: int| 0 <= i < es.len() ==> quote_parses(#[trigger] es[i])
}

/// The parsed `(date, close micro-units)` for one entry.
pub open spec fn parsed_quote(e: (Seq<char>, Seq<char>)) -> (Date, int) {
    (parse_date_spec(e.0).unwrap(), parse_decimal_spec(e.1).unwrap())
}

/// The daily exchange-rate history, from the provider's response: one
/// `(date, close)` pair per entry of the body's FX time series, dates and
/// amounts parsed exactly. Fails on a non-success status, on a body without
/// the time series, and on any entry that does not parse.
pub fn get_currency_history(status: u16, body: &str) -> (r: Result<
    AlphaVantageCurrencyResult,
    AlphaVantageError,
>)
    ensures
        (r is Ok) == (status == 200 && time_series_of(body@, "Time Series FX (Daily)"@) is Some
            && all_quotes_parse(time_series_of(body@, "Time Series FX (Daily)"@).unwrap())),
        match r {
            Ok(v) => ({
                let es = time_series_of(body@, "Time Series FX (Daily)"@).unwrap();
                &&& v.results@.len() == es.len()
                &&& forall|i: int|
                    0 <= i < es.len() ==> ((#[trigger] v.results@[i]).0 == parsed_quote(es[i]).0
                        && v.results@[i].1.close as int == parsed_quote(es[i]).1)
            }),
            Err(e) => (status != 200 ==> e.message@ == "status code: "@ + dec_str(status as int))
                && (status == 200 && time_series_of(body@, "Time Series FX (Daily)"@) is None
                ==> e.message@ == "unexpected response body"@) && (status == 200
                && time_series_of(body@, "Time Series FX (Daily)"@) is Some ==> e.message@
                == "unparsable series entry"@),
        },
{
    if status != 200 {
        return Err(status_error(status));
    }
    let entries = match parse_time_series(body, "Time Series FX (Daily)") {
        Some(v) => v,
        None => {
            return Err(
                AlphaVantageError { message: String::from_str("unexpected response body") },
            );
        },
    };
    let ghost es = time_series_of(body@, "Time Series FX (Daily)"@).unwrap();
    let n = entries.len();
    let mut results: Vec<(Date, AlphaVantageCurrencyDailyResult)> = Vec::new();
    let mut i: usize = 0;
    while i < n
        invariant
            n == entries@.len(),
            es == entries@.map_values(|x: (String, String)| (x.0@, x.1@)),
            time_series_of(body@, "Time Series FX (Daily)"@) == Some(es),
            status == 200,
            i <= n,
            results@.len() == i,
            forall|j: int| 0 <= j < i ==> quote_parses(#[trigger] es[j]),
            forall|j: int|
                0 <= j < i ==> ((#[trigger] results@[j]).0 == parsed_quote(es[j]).0
                    && results@[j].1.close as int == parsed_quote(es[j]).1),
        decreases n - i,
    {
        proof {
            assert(es[i as int] == (entries@[i as int].0@, entries@[i as int].1@));
        }
        let date = match parse_date(entries[i].0.as_str()) {
            Some(d) => d,
            None => {
                proof {
                    assert(!quote_parses(es[i as int]));
                    assert(!all_quotes_parse(es));
                }
                return Err(
                    AlphaVantageError { message: String::from_str("unparsable series entry") },
                );
            },
        };
        let close = match parse_decimal_micro(entries[i].1.as_str()) {
            Some(c) => c,
            None => {
                proof {
                    assert(!quote_parses(es[i as int]));
                    assert(!all_quotes_parse(es));
                }
                return Err(
                    AlphaVantageError { message: String::from_str("unparsable series entry") },
                );
            },
        };
        results.push((date, AlphaVantageCurrencyDailyResult { close }));
        i = i + 1;
    }
    Ok(AlphaVantageCurrencyResult { results })
}

/// The daily stock price history, from the provider's response; exactly as
/// `get_currency_history`, read from the body's daily time series.
pub fn get_stock_history(status: u16, body: &str) -> (r: Result<
    AlphaVantageStockResult,
    AlphaVantageError,
>)
    ensures
        (r is Ok) == (status == 200 && time_series_of(body@, "Time Series (Daily)"@) is Some
            && all_quotes_parse(time_series_of(body@, "Time Series (Daily)"@).unwrap())),
        match r {
            Ok(v) => ({
                let es = time_series_of(body@, "Time Series (Daily)"@).unwrap();
                &&& v.results@.len() == es.len()
                &&& forall|i: int|
                    0 <= i < es.len() ==> ((#[trigger] v.results@[i]).0 == parsed_quote(es[i]).0
                        && v.results@[i].1.close as int == parsed_quote(es[i]).1)
            }),
            Err(e) => (status != 200 ==> e.message@ == "status code: "@ + dec_str(status as int))
                && (status == 200 && time_series_of(body@, "Time Series (Daily)"@) is None
                ==> e.message@ == "unexpected response body"@) && (status == 200
                && time_series_of(body@, "Time Series (Daily)"@) is Some ==> e.message@
                == "unparsable series entry"@),
        },
{
    if status != 200 {
        return Err(status_error(status));
    }
    let entries = match parse_time_series(body, "Time Series (Daily)") {
        Some(v) => v,
        None => {
            return Err(
                AlphaVantageError { message: String::from_str("unexpected response body") },
            );
        },
    };
    let ghost es = time_series_of(body@, "Time Series (Daily)"@).unwrap();
    let n = entries.len();
    let mut results: Vec<(Date, AlphaVantageStockDailyResult)> = Vec::new();
    let mut i: usize = 0;
    while i < n
        invariant
            n == entries@.len(),
            es == entries@.map_values(|x: (String, String)| (x.0@, x.1@)),
            time_series_of(body@, "Time Series (Daily)"@) == Some(es),
            status == 200,
            i <= n,
            results@.len() == i,
            forall|j: int| 0 <= j < i ==> quote_parses(#[trigger] es[j]),
            forall|j: int|
                0 <= j < i ==> ((#[trigger] results@[j]).0 == parsed_quote(es[j]).0
                    && results@[j].1.close as int == parsed_quote(es[j]).1),
        decreases n - i,
    {
        proof {
            assert(es[i as int] == (entries@[i as int].0@, entries@[i as int].1@));
        }
        let date = match parse_date(entries[i].0.as_str()) {
            Some(d) => d,
            None => {
                proof {
                    assert(!quote_parses(es[i as int]));
                    assert(!all_quotes_parse(es));
                }
                return Err(
                    AlphaVantageError { message: String::from_str("unparsable series entry") },
                );
            },
        };
        let close = match parse_decimal_micro(entries[i].1.as_str()) {
            Some(c) => c,
            None => {
                proof {
                    assert(!quote_parses(es[i as int]));
                    assert(!all_quotes_parse(es));
                }
                return Err(
                    AlphaVantageError { message: String::from_str("unparsable series entry") },
                );
            },
        };
        results.push((date, AlphaVantageStockDailyResult { close }));
        i = i + 1;
    }
    Ok(AlphaVantageStockResult { results })
}

} // verus!
