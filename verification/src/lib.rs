//! Decision logic of a wireless-device scanner: discovery filtering, record
//! construction, record framing and the event dispatch rules.

pub mod address;
pub mod filter;
pub mod flags;
pub mod query;
pub mod scanner;
pub mod sink;
pub mod types;
