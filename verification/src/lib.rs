//! A local control plane for a timed Bluetooth Low-Energy advertisement.
//!
//! The library holds the two pieces of logic worth verifying: the bearer-token
//! gate that protects every mutating request ([`auth`]), and the state machine
//! that drives the start / hold / stop lifecycle of the single shared
//! advertising slot ([`controller`]). All I/O — the HTTP surface, the external
//! advertising commands, timers — lives outside the library and drives these
//! components with plain values.

pub mod auth;
pub mod controller;
pub mod history;
