//! Core of a multi-room broadcast messaging service.
//!
//! Clients join a numbered room under a display name; every message a client
//! sends is fanned out to all subscribers of the same room through a bounded
//! broadcast buffer whose slow consumers lose messages instead of blocking
//! publishers. A process-wide counter tracks total outbound deliveries, and a
//! small handshake-gated echo protocol shares the same connection mechanics.

pub mod counter;
pub mod echo;
pub mod envelope;
pub mod frame;
pub mod hub;
pub mod nice;
pub mod records;
pub mod registry;
pub mod room;
