//! Transport and client engine for AT-command modems on a serial link.
//!
//! Bytes arrive one interrupt at a time. The engine takes them into a
//! queue, cuts them into lines on a periodic tick, and tells the lines of a
//! response from unsolicited result codes. The foreground has one command in
//! flight at a time and finds its response, or its failure, by asking.
//!
//! - [`queue`]: the fixed-capacity channels between the three contexts.
//! - [`frame`]: lines, and the messages that the digester hands downstream.
//! - [`matcher`]: what is taken for an unsolicited result code.
//! - [`digester`]: from bytes to messages, one byte at a time.
//! - [`client`]: the command in flight, its deadline and its resolution.
//! - [`engine`]: all of these as one value, with its counts of what was lost.
//! - [`command`]: typed commands on top of the engine.
//! - [`laws`]: what holds of a whole exchange.
//! - [`bringup`]: the order in which a modem is brought up.

pub mod bringup;
pub mod client;
pub mod command;
pub mod digester;
pub mod engine;
pub mod frame;
pub mod laws;
pub mod matcher;
pub mod queue;
