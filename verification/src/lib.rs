//! Core of a LoRaWAN gateway dispatcher: a coordinator that keeps a live
//! connection to one remote validator, multiplexes the validator's pushed
//! streams, reconciles a registry of per-destination router tasks against
//! routing updates, fans uplink packets out to matching routers, and answers
//! height, region and configuration queries from surrounding subsystems.
//!
//! The asynchronous shell (RPC transport, task spawning, timers) lives
//! outside this crate; every decision the dispatcher makes is a verified
//! function from plain values to plain values.

pub mod dispatcher;
pub mod error;
pub mod keyed_uri;
pub mod region;
pub mod registry;
pub mod response;
pub mod routing;
