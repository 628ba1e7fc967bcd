//! Financial computation engine: time value of money, cash flow analysis,
//! amortization, depreciation, inventory costing and financial ratios,
//! all computed in exact decimal arithmetic.

pub mod date;
pub mod decimal;
pub mod order;
pub mod error;
pub mod money;
pub mod text;
pub mod rate;
pub mod config;
pub mod tvm;
pub mod cashflow;
pub mod amortization;
pub mod depreciation;
pub mod inventory;
pub mod ratios;
pub mod traits;
pub mod sdk;
