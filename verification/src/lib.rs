//! Transport-and-queue engine for paravirtualised I/O devices.
//!
//! The crate models the split virtqueue, the transport initialisation state
//! machine and the DMA contract of a guest driver over plain values, and
//! proves the ring protocol's bookkeeping: descriptors are conserved, a
//! failed submission changes nothing, and completions are matched against the
//! chains that are actually outstanding.
use vstd::prelude::*;

pub mod device;
pub mod hal;
pub mod queue;
pub mod transport;

verus! {

/// Every way an operation of this crate can fail.
#[derive(Clone, Copy, Debug, PartialEq, Eq, Structural)]
pub enum Error {
    /// The HAL could not satisfy a DMA allocation.
    OutOfMemory,
    /// The device refused the feature subset that the driver wrote back.
    FeatureNegotiationFailed,
    /// The requested table size is not one the ring protocol or the device supports.
    QueueSizeUnsupported,
    /// A queue was programmed with more entries than the device allows.
    QueueTooLarge,
    /// Fewer free descriptors remain than the request needs.
    QueueFull,
    /// A completion token does not name the chain that is due.
    WrongToken,
    /// The device is of no kind the drivers know.
    UnsupportedDeviceType,
    /// The device's configuration does not have the expected shape.
    InvalidConfiguration,
    /// A request with no buffers at all.
    InvalidParam,
}

} // verus!
