//! Simple-interest loans: a calendar of daily accruals for each loan, and a
//! registry that owns the loans and hands out their identifiers.
//!
//! A loan runs from a start date to an end date. Interest accrues on every
//! day after the start date up to and including the end date, the same
//! amount each day, and the total is stated for the whole term at once.
//!
//! The library places interest figures on the calendar and keeps the records.
//! It performs no arithmetic on amounts: their type is the caller's choice,
//! and the caller computes the figures of a loan from its principal and
//! rates before it hands the loan over.
//!
//! - [`date`]: calendar dates as day numbers, with conversions and parsing
//!   by `chrono`.
//! - [`accrual`]: the accrual engine, which builds the schedule of a term.
//! - [`loan`]: loan records, whose derived fields always agree with their
//!   parameters.
//! - [`registry`]: the registry of loans, with creation, replacement,
//!   lookup and listing.

pub mod accrual;
pub mod date;
pub mod loan;
pub mod registry;

pub use crate::accrual::DailyAccrual;
pub use crate::accrual::InterestFigures;
pub use crate::date::Date;
pub use crate::date::InvalidDate;
pub use crate::loan::Loan;
pub use crate::loan::LoanParams;
pub use crate::loan::LoanView;
pub use crate::registry::LoanId;
pub use crate::registry::LoanRegistry;
pub use crate::registry::NotFound;
