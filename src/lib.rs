//! Logic of a modem-driven gate controller: the whitelist rule grammar and its matching
//! against a call, the modem's line protocol, LED blink patterns, and the dispatcher that
//! reacts to modem and timer events.
pub mod blink;
pub mod config;
pub mod event;
pub mod mainloop;
pub mod modem;
pub mod parser;
pub mod whitelist;
