//! Decision logic of a small corporate-finance toolkit.
//!
//! The numeric formulas of the toolkit work on binary floating point and live
//! with the caller. What is proved here is everything that decides: the
//! two-phase search that locates an internal rate of return from the signs of a
//! net present value, the evaluation budget that bounds that search, and the
//! rules on the shape of a cash-flow series.

pub mod budget;
pub mod error;
pub mod laws;
pub mod payback;
pub mod search;
pub mod series;
pub mod sign;

pub use budget::Budget;
pub use budget::EVALUATION_LIMIT;
pub use error::FinanceError;
pub use payback::locate_payback;
pub use payback::Payback;
pub use search::irr;
pub use search::seek_zero;
pub use search::RatePoint;
pub use series::df_exponents;
pub use series::require_flows;
pub use sign::Sign;
