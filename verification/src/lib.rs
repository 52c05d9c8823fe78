//! Incremental synchronisation of a bank transaction feed into a budget ledger.

pub mod bank_api;
pub mod budget_api;
pub mod day_month_year_format;
pub mod payee;
pub mod settings;
pub mod sync;
pub mod text;
pub mod timestamp;
pub mod transaction;
pub mod transaction_cache;
