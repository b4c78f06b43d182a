//! The remaining stored-row shapes: incomes, shared expenses, and the
//! instrument bookkeeping rows, with their keyed variants.

use vstd::prelude::*;

use crate::date::Date;

verus! {

#[derive(Clone, Debug, PartialEq)]
pub struct Income {
    pub id: Option<i32>,
    pub transaction_date: Date,
    pub type_: String,
    /// Amount in micro-units.
    pub amount: i128,
}

/// One expense shared between households, to be folded into the expense
/// series under a common category.
#[derive(Clone, Debug, PartialEq)]
pub struct SharedExpense {
    pub expense_date: Date,
    pub type_: String,
    /// Amount in micro-units.
    pub amount: i128,
}

/// An instrument the engine tracks: a stock symbol with its base currency,
/// or a currency symbol.
#[derive(Clone, Debug, PartialEq)]
pub struct Symbol {
    pub symbol_type: String,
    pub symbol: String,
    pub base_currency: Option<String>,
    pub last_processed_date: Option<Date>,
}

#[derive(Clone, Debug, PartialEq)]
pub struct SymbolWithId {
    pub id: i32,
    pub symbol_type: String,
    pub symbol: String,
    pub base_currency: Option<String>,
    pub last_processed_date: Option<Date>,
}

#[derive(Clone, Debug, PartialEq)]
pub struct TradeWithId {
    pub id: i32,
    pub date_purchased: Date,
    pub symbol: String,
    /// Unit price in micro-units.
    pub price_each: i128,
    /// Quantity in micro-units.
    pub quantity: i128,
    pub trade_type: String,
}

#[derive(Clone, Copy, Debug, PartialEq, Eq, Structural)]
pub struct MortgageScheduleWithId {
    pub id: i32,
    pub date: Date,
    pub interest_paid: i128,
    pub principal_paid: i128,
    pub total_principal_paid: i128,
    pub total_interest_paid: i128,
    pub total_principal_left: i128,
    pub total_interest_left: i128,
}

} // verus!
