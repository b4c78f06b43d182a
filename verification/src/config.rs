//! The run configuration: where each input lives and the credentials the
//! collaborators need. Argument parsing happens outside; the library only
//! carries the values.

use vstd::prelude::*;

verus! {

#[derive(Clone, Debug, PartialEq)]
pub struct Config {
    pub database_url: String,
    pub alphavantage_key: String,
    pub assets_csv: String,
    pub expenses_csv: String,
    pub income_csv: String,
    pub trades_csv: String,
    pub mortgage_yaml: String,
    pub shared_expense_csv: String,
    pub telegram_bot_endpoint: String,
}

impl Config {
    /// A configuration from its already-parsed values, kept as given.
    pub fn new(
        database_url: String,
        alphavantage_key: String,
        assets_csv: String,
        expenses_csv: String,
        income_csv: String,
        trades_csv: String,
        mortgage_yaml: String,
        shared_expense_csv: String,
        telegram_bot_endpoint: String,
    ) -> (r: Config)
        ensures
            r == (Config {
                database_url,
                alphavantage_key,
                assets_csv,
                expenses_csv,
                income_csv,
                trades_csv,
                mortgage_yaml,
                shared_expense_csv,
                telegram_bot_endpoint,
            }),
    {
        Config {
            database_url,
            alphavantage_key,
            assets_csv,
            expenses_csv,
            income_csv,
            trades_csv,
            mortgage_yaml,
            shared_expense_csv,
            telegram_bot_endpoint,
        }
    }
}

} // verus!
