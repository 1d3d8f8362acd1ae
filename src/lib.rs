//! A time-locked value vault: an instruction decoder, a fixed 49-byte record
//! codec, a two-party balance transfer and the lock/release state machine.
pub mod account;
pub mod error;
pub mod instruction;
pub mod processor;
pub mod state;
pub mod utils;
