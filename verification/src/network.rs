//! Auxiliary network interface of the dock.
//!
//! The same physical device exposes a secondary USB interface for its
//! network function. Claiming it is strictly best-effort: a kernel
//! driver already bound to it is left alone, and a failed claim is not
//! an error — the display function must never depend on this interface.

use vstd::prelude::*;

verus! {

/// USB interface number of the network function.
pub const NETWORK_INTERFACE: u8 = 5;

/// Bulk OUT endpoint of the network function.
pub const NET_BULK_OUT_ENDPOINT: u8 = 0x05;

/// Bulk IN endpoint of the network function.
pub const NET_BULK_IN_ENDPOINT: u8 = 0x85;

/// What querying the kernel's own driver on the interface can report.
#[derive(Debug, Clone, Copy, PartialEq, Eq, Structural)]
pub enum KernelDriverStatus {
    /// A kernel network driver owns the interface.
    Active,
    /// The interface is unclaimed.
    Inactive,
    /// The query itself failed.
    Unknown,
}

/// Whether the adapter should attempt to claim the interface: only when
/// no kernel driver is known to own it. Deferring to the kernel counts
/// as success.
pub fn should_claim_network(status: KernelDriverStatus) -> (claim: bool)
    ensures
        claim == (status != KernelDriverStatus::Active),
{
    match status {
        KernelDriverStatus::Active => false,
        KernelDriverStatus::Inactive => true,
        KernelDriverStatus::Unknown => true,
    }
}

/// The enabled flag after network initialization: set exactly when the
/// adapter attempted the claim itself and the claim succeeded. The flag
/// decides whether teardown releases the interface — only one that was
/// actually claimed is released.
pub fn network_enabled(status: KernelDriverStatus, claim_succeeded: bool) -> (enabled: bool)
    ensures
        enabled == (status != KernelDriverStatus::Active && claim_succeeded),
{
    match status {
        KernelDriverStatus::Active => false,
        _ => claim_succeeded,
    }
}

} // verus!
