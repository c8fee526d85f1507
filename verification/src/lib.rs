//! A timed on/off output: the durations it runs on, the rules for changing
//! them, and the cycle that consumes them.
//!
//! - [`config`]: the record of the two durations and the store that holds
//!   the current record, replaced whole or not at all;
//! - [`request`]: the byte string by which an operator asks for new
//!   durations, and how it is read;
//! - [`update`]: applying a request to the store, and the line that tells
//!   the operator what became of it;
//! - [`toggle`]: the cycle of on and off phases as a state machine that
//!   reads the store once at the start of each phase;
//! - [`page`]: the two pages shown to the operator.
//!
//! Nothing here touches a pin, a clock or a socket. The program around the
//! library performs the actions that the cycle names, and hands it the
//! bytes that arrive.

pub mod config;
pub mod page;
pub mod request;
pub mod toggle;
pub mod update;
