//! A personal finance ledger: accounts, categories, transactions, recurring
//! items, budgets and savings goals, with the rules that keep every account's
//! cached balance equal to the signed sum of its transactions.

pub mod api;
pub mod audit;
pub mod dates;
pub mod error;
pub mod input;
pub mod laws;
pub mod ledger;
pub mod models;
pub mod money;
pub mod planning;
pub mod protocol;
pub mod queries;
pub mod report;
pub mod seed;
pub mod ranking;
pub mod sorting;
pub mod state;
pub mod sync;
pub mod text;
pub mod tui;
pub mod util;
