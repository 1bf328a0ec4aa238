//! Transaction-management core of a small-business bookkeeping library.
//!
//! The crate records sale and purchase transactions composed of line items,
//! keeps monetary totals consistent with the items they are derived from,
//! guards the draft/confirmed/cancelled lifecycle, and computes aggregate
//! summaries.  All monetary arithmetic is fixed-point: quantities are held in
//! thousandths of a unit, prices and amounts in hundredths of the currency
//! (cents), and tax rates in ten-thousandths (basis points).

pub mod create;
pub mod errors;
pub mod laws;
pub mod lifecycle;
pub mod listing;
pub mod load;
pub mod model;
pub mod mutate;
pub mod money;
pub mod requests;
pub mod store;
pub mod summary;
