//! Control-protocol library for a networked audio/video receiver.
//!
//! The receiver exposes two independent TCP control surfaces: a line-oriented
//! text command protocol and a JSON-based control protocol for multi-room
//! audio ("HEOS"). This crate holds everything about those protocols that can
//! be stated and proved: command framing, decoding of the JSON response
//! envelope, the lazy per-protocol session bookkeeping, and the decision
//! logic of the multi-step operations and of the interactive pass-through
//! mode. The sockets, the terminal and the command line live outside, in a
//! thin unverified front end that hands this library plain values.

pub mod bridge;
pub mod decimal;
pub mod dispatch;
pub mod error;
pub mod heos;
pub mod input;
pub mod json;
pub mod session;
