//! Host-side command/response core for RFCat-class USB radio dongles.
//!
//! The crate covers the wire packet codec, the device matcher, the bulk
//! endpoint negotiation rules, the reply correlation layer with its
//! mailbox/command keyed queues, and the payload rules of the device-level
//! operations. The raw USB transfers themselves are left to the caller, who
//! hands byte buffers in and out of these verified functions.

pub mod codec;
pub mod commands;
pub mod dispatch;
pub mod errors;
pub mod matcher;
pub mod negotiate;
pub mod ops;
pub mod radiocfg;

pub use codec::RfCatPacket;
pub use commands::{Addresses, AppMailbox, CCRegisters, RfState, SystemCommand};
pub use errors::RfCatError;
pub use radiocfg::RadioConfig;
