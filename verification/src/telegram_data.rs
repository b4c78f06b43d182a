//! Expenses collected through the chat-bot feed: the month-by-month request
//! plan, and the feed's responses reduced to typed expense records. The
//! transport lives outside this crate.

use vstd::prelude::*;

use crate::date::Date;
use crate::expenditure::Expense;
use crate::models::SharedExpense;
use crate::parse::{dec_str, parse_date_spec, parse_decimal_micro, parse_decimal_spec, u16_to_string};

verus! {

/// A failure talking to or reading from the expense feed.
#[derive(Clone, Debug, PartialEq)]
pub struct TelegramBotError {
    pub message: String,
}

/// One expense entry as the feed reports it.
#[derive(Clone, Debug, PartialEq)]
pub struct ExpenseStruct {
    pub date: Date,
    pub type_: String,
    /// Amount in micro-units.
    pub amount: i128,
}

/// The `(date, type, amount)` texts of each entry of an expense-feed
/// response body, in document order; `None` when the body is not such a
/// response. A function of the body alone.
pub uninterp spec fn expenses_of(body: Seq<char>) -> Option<Seq<(Seq<char>, Seq<char>, Seq<char>)>>;

/// Relies on serde_json::from_str: decodes the expense body into maps and
/// moves each entry's `date`, `type` and `amount` texts out, converting only.
#[verifier::external_body]
fn parse_expenses_body(body: &str) -> (r: Option<Vec<(String, String, String)>>)
    ensures
        match r {
            Some(v) => expenses_of(body@) == Some(
                v@.map_values(|x: (String, String, String)| (x.0@, x.1@, x.2@)),
            ),
            None => expenses_of(body@) is None,
        },
{
    let m: std::collections::BTreeMap<String, Vec<std::collections::BTreeMap<String, serde_json::Value>>> =
        serde_json::from_str(body).ok()?;
    let entries = m.get("expenses")?;
    let mut out = Vec::new();
    for e in entries {
        let date = e.get("date")?.as_str()?.to_string();
        let type_ = e.get("type")?.as_str()?.to_string();
        let amount = match e.get("amount")? {
            serde_json::Value::String(x) => x.clone(),
            serde_json::Value::Number(x) => x.to_string(),
            _ => return None,
        };
        out.push((date, type_, amount));
    }
    Some(out)
}

/// Whether a feed entry's texts parse: the date's first ten characters as a
/// calendar day, the amount as a plain decimal.
pub open spec fn entry_parses(e: (Seq<char>, Seq<char>, Seq<char>)) -> bool {
    e.0.len() >= 10 && parse_date_spec(e.0.take(10)) is Some && parse_decimal_spec(e.2) is Some
}

pub open spec fn all_entries_parse(es: Seq<(Seq<char>, Seq<char>, Seq<char>)>) -> bool {
    forall|i: int| 0 <= i < es.len() ==> entry_parses(#[trigger] es[i])
}

/// The typed record a feed entry parses to.
pub open spec fn parsed_entry(e: (Seq<char>, Seq<char>, Seq<char>)) -> (Date, Seq<char>, int) {
    (parse_date_spec(e.0.take(10)).unwrap(), e.1, parse_decimal_spec(e.2).unwrap())
}

/// The expense records in one feed response: each entry's date (its day
/// part), category and amount, parsed exactly. Fails on a non-success
/// status, on a body that is not an expense response, and on any entry that
/// does not parse.
pub fn parse_expense_response(status: u16, body: &str) -> (r: Result<
    Vec<ExpenseStruct>,
    TelegramBotError,
>)
    ensures
        (r is Ok) == (status == 200 && expenses_of(body@) is Some && all_entries_parse(
            expenses_of(body@).unwrap(),
        )),
        match r {
            Ok(v) => ({
                let es = expenses_of(body@).unwrap();
                &&& v@.len() == es.len()
                &&& forall|i: int|
                    0 <= i < es.len() ==> ((#[trigger] v@[i]).date == parsed_entry(es[i]).0
                        && v@[i].type_@ == parsed_entry(es[i]).1 && v@[i].amount as int
                        == parsed_entry(es[i]).2)
            }),
            Err(e) => (status != 200 ==> e.message@ == "status code: "@ + dec_str(status as int))
                && (status == 200 && expenses_of(body@) is None ==> e.message@
                == "unexpected response body"@) && (status == 200 && expenses_of(body@) is Some
                ==> e.message@ == "unparsable entry"@),
        },
{
    if status != 200 {
        let mut message = String::from_str("status code: ");
        let digits = u16_to_string(status);
        message.append(digits.as_str());
        return Err(TelegramBotError { message });
    }
    let entries = match parse_expenses_body(body) {
        Some(v) => v,
        None => {
            return Err(TelegramBotError { message: String::from_str("unexpected response body") });
        },
    };
    let ghost es = expenses_of(body@).unwrap();
    let n = entries.len();
    let mut out: Vec<ExpenseStruct> = Vec::new();
    let mut i: usize = 0;
    while i < n
        invariant
            n == entries@.len(),
            es == entries@.map_values(|x: (String, String, String)| (x.0@, x.1@, x.2@)),
            expenses_of(body@) == Some(es),
            status == 200,
            i <= n,
            out@.len() == i,
            forall|j: int| 0 <= j < i ==> entry_parses(#[trigger] es[j]),
            forall|j: int|
                0 <= j < i ==> ((#[trigger] out@[j]).date == parsed_entry(es[j]).0
                    && out@[j].type_@ == parsed_entry(es[j]).1 && out@[j].amount as int
                    == parsed_entry(es[j]).2),
        decreases n - i,
    {
        proof {
            assert(es[i as int] == (entries@[i as int].0@, entries@[i as int].1@, entries@[
                i as int].2@));
        }
        let date_text = entries[i].0.as_str();
        if date_text.unicode_len() < 10 {
            proof {
                assert(!entry_parses(es[i as int]));
                assert(!all_entries_parse(es));
            }
            return Err(TelegramBotError { message: String::from_str("unparsable entry") });
        }
        let day_part = date_text.substring_char(0, 10);
        let date = match crate::parse::parse_date(day_part) {
            Some(d) => d,
            None => {
                proof {
                    assert(!entry_parses(es[i as int]));
                    assert(!all_entries_parse(es));
                }
                return Err(TelegramBotError { message: String::from_str("unparsable entry") });
            },
        };
        let amount = match parse_decimal_micro(entries[i].2.as_str()) {
            Some(a) => a,
            None => {
                proof {
                    assert(!entry_parses(es[i as int]));
                    assert(!all_entries_parse(es));
                }
                return Err(TelegramBotError { message: String::from_str("unparsable entry") });
            },
        };
        let type_ = entries[i].1.clone();
        out.push(ExpenseStruct { date, type_, amount });
        i = i + 1;
    }
    Ok(out)
}

/// A feed entry as a household expense row.
pub fn map_expense_response_to_expense(e: &ExpenseStruct) -> (r: Expense)
    ensures
        r.id is None,
        r.transaction_date == e.date,
        r.type_@ == e.type_@,
        r.amount == e.amount,
{
    Expense {
        id: None,
        transaction_date: e.date,
        type_: e.type_.clone(),
        amount: e.amount,
    }
}

/// A feed entry as a shared expense row.
pub fn map_expense_response_to_shared_expense(e: &ExpenseStruct) -> (r: SharedExpense)
    ensures
        r.expense_date == e.date,
        r.type_@ == e.type_@,
        r.amount == e.amount,
{
    SharedExpense { expense_date: e.date, type_: e.type_.clone(), amount: e.amount }
}

/// The `(year, month)` pairs to request: one per calendar month from `start`
/// up to `today` (exclusive).
pub open spec fn months_spec(cur: Date, today: Date, fuel: nat) -> Seq<(i32, i32)>
    decreases fuel,
{
    if fuel == 0 || !cur.before(today) {
        Seq::empty()
    } else {
        seq![(cur.year, cur.month)].add(months_spec(cur.shift_months_spec(1), today, (fuel - 1) as nat))
    }
}

/// The request plan for the feed: every month from `start` to `today`.
pub fn months_to_fetch(start: &Date, today: &Date) -> (r: Vec<(i32, i32)>)
    requires
        start.valid(),
        100 <= start.year <= 9000,
        today.valid(),
        100 <= today.year <= 9000,
    ensures
        ({
            let fuel = if start.month_index() <= today.month_index() {
                (today.month_index() - start.month_index() + 1) as nat
            } else {
                0nat
            };
            r@ == months_spec(*start, *today, fuel)
        }),
{
    let ghost fuel0: nat = if start.month_index() <= today.month_index() {
        (today.month_index() - start.month_index() + 1) as nat
    } else {
        0nat
    };
    let mut out: Vec<(i32, i32)> = Vec::new();
    let mut cur: Date = *start;
    proof {
        if start.before(*today) {
            crate::date::lemma_before_month_index(*start, *today);
        }
        assert(Seq::<(i32, i32)>::empty() + months_spec(*start, *today, fuel0) =~= months_spec(
            *start,
            *today,
            fuel0,
        ));
    }
    while cur.is_before(today)
        invariant
            today.valid(),
            100 <= today.year <= 9000,
            cur.valid(),
            cur.month_index() >= start.month_index(),
            100 * 12 <= start.month_index() <= 9000 * 12 + 11,
            fuel0 == if start.month_index() <= today.month_index() {
                (today.month_index() - start.month_index() + 1) as nat
            } else {
                0nat
            },
            months_spec(*start, *today, fuel0) == out@ + months_spec(
                cur,
                *today,
                (fuel0 - (cur.month_index() - start.month_index())) as nat,
            ),
            cur.before(*today) ==> fuel0 - (cur.month_index() - start.month_index()) >= 1,
        decreases 9000 * 12 + 13 - cur.month_index(),
    {
        proof {
            crate::date::lemma_before_month_index(cur, *today);
        }
        let ghost fuel_here: nat = (fuel0 - (cur.month_index() - start.month_index())) as nat;
        let ghost out0 = out@;
        let ghost cur0 = cur;
        out.push((cur.year, cur.month));
        let next = cur.shift_months(1);
        proof {
            if next.before(*today) {
                crate::date::lemma_before_month_index(next, *today);
            }
            let rest = months_spec(next, *today, (fuel_here - 1) as nat);
            assert(months_spec(cur0, *today, fuel_here) == seq![(cur0.year, cur0.month)].add(rest));
            assert(out@ =~= out0 + seq![(cur0.year, cur0.month)]);
            assert(out0 + seq![(cur0.year, cur0.month)].add(rest) =~= (out0 + seq![
                (cur0.year, cur0.month),
            ]).add(rest));
        }
        cur = next;
    }
    proof {
        assert(months_spec(
            cur,
            *today,
            (fuel0 - (cur.month_index() - start.month_index())) as nat,
        ) =~= Seq::<(i32, i32)>::empty());
        assert(out@ + Seq::<(i32, i32)>::empty() =~= out@);
    }
    out
}

} // verus!
