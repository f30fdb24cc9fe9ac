//! Business-to-business pricing rules evaluated against a cart.
//!
//! Money and discount values are decimals with two fractional digits, held as
//! integer counts of hundredths: a unit price of 20.00 is `2000`, a percentage
//! rule of 10 % has `discount_value == 1000`, a fixed rule of 50.00 has
//! `discount_value == 5000`.
pub mod model;
pub mod matcher;
pub mod order;
pub mod resolver;
pub mod calculator;
pub mod decision;
pub mod laws;
