//! User-space driver core for DisplayLink-class USB display adapters.
//!
//! The crate holds the vendor wire-protocol codec (run-length pixel
//! compression and register-write command encoding), the per-device driver
//! state machine that turns virtual-display events into command byte
//! sequences, and the device-manager registry that tracks attached adapters.
//! All USB and virtual-display I/O lives outside this crate; the functions
//! here compute from plain values to plain values.

use vstd::prelude::*;

pub mod command;
pub mod driver;
pub mod identity;
pub mod manager;
pub mod mode;
pub mod network;
pub mod rle;

verus! {

/// Largest payload handed to a single USB bulk transfer, in bytes.
pub const DL_MAX_TRANSFER_SIZE: usize = 16384;

} // verus!
