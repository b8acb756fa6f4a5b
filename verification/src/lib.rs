//! CalNexus calculation engine: verified core logic.
//!
//! The library holds the parts of the engine that are integer, string or tree
//! logic: error values, the message catalogue, exact integers and fractions,
//! number theory and combinatorics, unit and calendar tables, date parsing,
//! exchange-rate tables, the time domain's calls, expression-tree queries,
//! symbolic differentiation, integration and printing, and LaTeX rendering. Binary64 values appear as
//! their bit patterns; arithmetic on them is the caller's.

pub mod error;
pub mod text;
pub mod bigint;
pub mod edit_distance;
pub mod unit_table;
pub mod units;
pub mod fx;
pub mod calendar;
pub mod datetime;
pub mod zoned;
pub mod time_eval;
pub mod number_theory;
pub mod modular;
pub mod totient;
pub mod combinatorics;
pub mod precision;
pub mod i18n;
pub mod catalog;
pub mod ast;
pub mod domains;
pub mod latex;
pub mod symbolic;
pub mod result;
pub mod canonical;
pub mod evaluator;
pub mod steps;
