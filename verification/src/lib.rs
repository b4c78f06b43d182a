//! A personal-finance batch engine: it reconciles sparse, dated financial
//! events (trades, mortgage downpayments, expense records) into dense,
//! date-indexed output series — daily portfolio value, a monthly mortgage
//! amortization schedule, and a rolling average of expenditure.
//!
//! Money is held in fixed-point micro-units (one millionth of a currency
//! unit) so that every computation is exact integer arithmetic.

pub mod alphavantage;
pub mod asset;
pub mod config;
pub mod date;
pub mod expenditure;
pub mod fixed;
pub mod models;
pub mod mortgage;
pub mod parse;
pub mod shared_expenditure;
pub mod stock;
pub mod strings;
pub mod telegram_data;
