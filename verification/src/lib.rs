//! Driver for the `rv8803` real-time clock, reached over a register-addressed
//! serial bus.
//!
//! The driver turns clock operations into bus transactions and converts
//! between the chip's binary-coded-decimal registers and plain decimal
//! values. Every function carries a contract that Verus proves.
pub use crate::models::ClockData;
pub use crate::rtc::Driver;
pub use crate::rtc::DriverAsync;

pub mod bus;
pub mod error;
pub mod formatter;
pub mod log;
pub mod models;
pub mod prelude;
pub mod rtc;
