//! The transport: uniform access to a device's status, feature and queue
//! registers, and the initialisation handshake that runs over them.
//!
//! A [`Transport`] is described by the device state it stands for, given as
//! a [`TransportState`]; what each register access does is stated over that.
use vstd::prelude::*;

use crate::hal::PhysAddr;
use crate::Error;

pub mod simulated;

verus! {

/// Status bit: the guest has noticed the device.
pub const STATUS_ACKNOWLEDGE: u8 = 1;

/// Status bit: the guest knows how to drive the device.
pub const STATUS_DRIVER: u8 = 2;

/// Status bit: the driver is set up and the device may process queue traffic.
pub const STATUS_DRIVER_OK: u8 = 4;

/// Status bit: the driver has accepted a feature subset and the device agreed to it.
pub const STATUS_FEATURES_OK: u8 = 8;

/// Status bit: the device has hit an error from which only a reset recovers.
pub const STATUS_DEVICE_NEEDS_RESET: u8 = 64;

/// Status bit: the guest has given up on the device.
pub const STATUS_FAILED: u8 = 128;

/// Feature bit 24: the device notifies when a queue runs empty (legacy).
pub const FEATURE_NOTIFY_ON_EMPTY: u64 = 0x0100_0000;

/// Feature bit 27: buffers may be laid out freely (legacy).
pub const FEATURE_ANY_LAYOUT: u64 = 0x0800_0000;

/// Feature bit 28: indirect descriptors.
pub const FEATURE_INDIRECT_DESC: u64 = 0x1000_0000;

/// Feature bit 29: notification suppression by event index.
pub const FEATURE_EVENT_IDX: u64 = 0x2000_0000;

/// Feature bit 32: the device follows version 1 of the protocol.
pub const FEATURE_VERSION_1: u64 = 0x1_0000_0000;

/// Feature bit 33: the device sits behind a platform that limits or translates its accesses.
pub const FEATURE_ACCESS_PLATFORM: u64 = 0x2_0000_0000;

/// Feature bit 34: the packed ring layout.
pub const FEATURE_RING_PACKED: u64 = 0x4_0000_0000;

/// Feature bit 35: buffers are used in the order they were made available.
pub const FEATURE_IN_ORDER: u64 = 0x8_0000_0000;

/// Feature bit 36: memory accesses are ordered as the platform describes.
pub const FEATURE_ORDER_PLATFORM: u64 = 0x10_0000_0000;

/// Feature bit 37: single-root I/O virtualisation.
pub const FEATURE_SR_IOV: u64 = 0x20_0000_0000;

/// Feature bit 38: the driver passes extra data in its notifications.
pub const FEATURE_NOTIFICATION_DATA: u64 = 0x40_0000_0000;

/// Feature bit 39: the notification data is taken from the queue's configuration.
pub const FEATURE_NOTIF_CONFIG_DATA: u64 = 0x80_0000_0000;

/// Feature bit 40: queues can be reset one by one.
pub const FEATURE_RING_RESET: u64 = 0x100_0000_0000;

/// The kinds of device the drivers know, and one for all the others.
#[derive(Clone, Copy, Debug, PartialEq, Eq, Structural)]
pub enum DeviceType {
    Network,
    Block,
    Gpu,
    Input,
    Sound,
    Unrecognized,
}

impl DeviceType {
    /// The device type that a device-type tag stands for.
    pub open spec fn spec_from_id(id: u32) -> DeviceType {
        if id == 1 {
            DeviceType::Network
        } else if id == 2 {
            DeviceType::Block
        } else if id == 16 {
            DeviceType::Gpu
        } else if id == 18 {
            DeviceType::Input
        } else if id == 25 {
            DeviceType::Sound
        } else {
            DeviceType::Unrecognized
        }
    }

    /// Decodes the device-type tag read from a device's identification register.
    pub fn from_id(id: u32) -> (t: DeviceType)
        ensures
            t == Self::spec_from_id(id),
    {
        if id == 1 {
            DeviceType::Network
        } else if id == 2 {
            DeviceType::Block
        } else if id == 16 {
            DeviceType::Gpu
        } else if id == 18 {
            DeviceType::Input
        } else if id == 25 {
            DeviceType::Sound
        } else {
            DeviceType::Unrecognized
        }
    }
}

/// The feature subset that driver and device agree on: what both sides name.
pub open spec fn spec_negotiate(offered: u64, requested: u64) -> u64 {
    offered & requested
}

/// The feature subset that driver and device agree on: what both sides name.
pub fn negotiate(offered: u64, requested: u64) -> (agreed: u64)
    ensures
        agreed == spec_negotiate(offered, requested),
{
    offered & requested
}

/// Whether every bit of `flags` is set in `bits`.
pub open spec fn spec_has(bits: u64, flags: u64) -> bool {
    bits & flags == flags
}

/// Whether every bit of `flags` is set in `bits`.
pub fn has(bits: u64, flags: u64) -> (b: bool)
    ensures
        b == spec_has(bits, flags),
{
    bits & flags == flags
}

/// Where one queue lives and how many entries it has, as programmed into the device.
#[derive(Clone, Copy, Debug, PartialEq, Eq, Structural)]
pub struct QueueConfig {
    /// Number of entries of the table and of each ring.
    pub size: u32,
    /// Address of the descriptor table.
    pub descriptors: PhysAddr,
    /// Address of the available ring.
    pub driver_area: PhysAddr,
    /// Address of the used ring.
    pub device_area: PhysAddr,
}

impl QueueConfig {
    /// The three parts lie as the ring layout asks: the descriptor table on
    /// a multiple of 16, the available ring of 2, the used ring of 4.
    pub open spec fn aligned(self) -> bool {
        &&& self.descriptors.0 % 16 == 0
        &&& self.driver_area.0 % 2 == 0
        &&& self.device_area.0 % 4 == 0
    }
}

/// The device as the transport's registers show it.
#[verifier::ext_equal]
pub struct TransportState {
    /// The kind of device.
    pub device_type: DeviceType,
    /// The vendor tag of the device.
    pub vendor_id: u32,
    /// The device status register.
    pub status: u8,
    /// The features the device offers.
    pub offered: u64,
    /// The feature subsets the device agrees to work with.
    pub acceptable: Set<u64>,
    /// The features the driver has written back.
    pub accepted: u64,
    /// For each queue index the device has, the largest size it takes there.
    pub queue_max: Seq<u32>,
    /// The queues that have been programmed.
    pub queues: Map<u16, QueueConfig>,
    /// Every notification sent so far, oldest first, by queue index.
    pub notifications: Seq<u16>,
    /// Whether the device has raised an interrupt that is not yet acknowledged.
    pub interrupt_pending: bool,
    /// The device-specific configuration region.
    pub config: Seq<u8>,
}

impl TransportState {
    /// The largest size the device takes for the queue at `queue`; 0 where it has no such queue.
    pub open spec fn max_size(self, queue: u16) -> u32 {
        if queue < self.queue_max.len() {
            self.queue_max[queue as int]
        } else {
            0
        }
    }

    /// Whether the device has a queue at `queue` and takes `size` entries for it.
    pub open spec fn takes(self, queue: u16, size: u32) -> bool {
        queue < self.queue_max.len() && size <= self.queue_max[queue as int]
    }

    /// The device after a reset: status clear, nothing accepted, no queue programmed.
    pub open spec fn reset(self) -> TransportState {
        TransportState {
            status: 0,
            accepted: 0,
            queues: Map::empty(),
            interrupt_pending: false,
            ..self
        }
    }

    /// The device after the driver wrote `status` to the status register.
    ///
    /// Writing zero resets the device. The device refuses the features-ok bit,
    /// leaving it clear, when it does not agree to what the driver accepted.
    pub open spec fn after_status_write(self, status: u8) -> TransportState {
        if status == 0 {
            self.reset()
        } else if status & STATUS_FEATURES_OK != 0 && !self.acceptable.contains(self.accepted) {
            TransportState { status: status & !STATUS_FEATURES_OK, ..self }
        } else {
            TransportState { status, ..self }
        }
    }

    /// The device after a successful handshake for the features `requested`.
    pub open spec fn negotiated(self, requested: u64) -> TransportState {
        TransportState {
            status: STATUS_ACKNOWLEDGE | STATUS_DRIVER | STATUS_FEATURES_OK,
            accepted: spec_negotiate(self.offered, requested),
            ..self.reset()
        }
    }

    /// The device after a handshake that it refused.
    pub open spec fn refused(self, requested: u64) -> TransportState {
        TransportState {
            status: STATUS_ACKNOWLEDGE | STATUS_DRIVER | STATUS_FAILED,
            accepted: spec_negotiate(self.offered, requested),
            ..self.reset()
        }
    }
}

/// Uniform access to one device, whatever its register layout.
pub trait Transport {
    /// The device state the registers stand for.
    spec fn view(&self) -> TransportState;

    /// The implementation's own consistency condition.
    spec fn wf(&self) -> bool;

    /// The kind of device behind the transport.
    fn device_type(&self) -> (t: DeviceType)
        requires
            self.wf(),
        ensures
            t == self.view().device_type,
    ;

    /// The vendor tag of the device.
    fn vendor_id(&self) -> (v: u32)
        requires
            self.wf(),
        ensures
            v == self.view().vendor_id,
    ;

    /// Reads the feature bits the device offers.
    fn read_device_features(&mut self) -> (f: u64)
        requires
            old(self).wf(),
        ensures
            final(self).wf(),
            f == old(self).view().offered,
            final(self).view() == old(self).view(),
    ;

    /// Writes the feature bits the driver accepts.
    fn write_driver_features(&mut self, features: u64)
        requires
            old(self).wf(),
        ensures
            final(self).wf(),
            final(self).view() == (TransportState { accepted: features, ..old(self).view() }),
    ;

    /// The largest size the device takes for the queue at `queue`.
    fn max_queue_size(&mut self, queue: u16) -> (m: u32)
        requires
            old(self).wf(),
        ensures
            final(self).wf(),
            m == old(self).view().max_size(queue),
            final(self).view() == old(self).view(),
    ;

    /// Reads the device status register.
    fn get_status(&self) -> (s: u8)
        requires
            self.wf(),
        ensures
            s == self.view().status,
    ;

    /// Writes the device status register.
    fn set_status(&mut self, status: u8)
        requires
            old(self).wf(),
        ensures
            final(self).wf(),
            final(self).view() == old(self).view().after_status_write(status),
    ;

    /// Programs the location and size of one queue. Only to be used before
    /// the driver-ok bit is set.
    ///
    /// Fails with `QueueTooLarge`, changing nothing, when `size` is more than
    /// the device takes for that queue, or the device has no such queue.
    fn queue_set(
        &mut self,
        queue: u16,
        size: u32,
        descriptors: PhysAddr,
        driver_area: PhysAddr,
        device_area: PhysAddr,
    ) -> (r: Result<(), Error>)
        requires
            old(self).wf(),
            old(self).view().status & STATUS_DRIVER_OK == 0,
        ensures
            final(self).wf(),
            match r {
                Ok(_) => {
                    &&& old(self).view().takes(queue, size)
                    &&& final(self).view() == (TransportState {
                        queues: old(self).view().queues.insert(
                            queue,
                            QueueConfig { size, descriptors, driver_area, device_area },
                        ),
                        ..old(self).view()
                    })
                },
                Err(e) => {
                    &&& e == Error::QueueTooLarge
                    &&& !old(self).view().takes(queue, size)
                    &&& final(self).view() == old(self).view()
                },
            },
    ;

    /// Tells the device that the queue at `queue` has new available entries.
    fn notify(&mut self, queue: u16)
        requires
            old(self).wf(),
        ensures
            final(self).wf(),
            final(self).view() == (TransportState {
                notifications: old(self).view().notifications.push(queue),
                ..old(self).view()
            }),
    ;

    /// Clears the pending interrupt cause and says whether there was one.
    fn ack_interrupt(&mut self) -> (pending: bool)
        requires
            old(self).wf(),
        ensures
            final(self).wf(),
            pending == old(self).view().interrupt_pending,
            final(self).view() == (TransportState {
                interrupt_pending: false,
                ..old(self).view()
            }),
    ;

    /// Reads the first `size` bytes of the device-specific configuration.
    ///
    /// Fails with `InvalidConfiguration` when the region is shorter than that.
    fn config_space(&self, size: usize) -> (r: Result<Vec<u8>, Error>)
        requires
            self.wf(),
        ensures
            match r {
                Ok(bytes) => size <= self.view().config.len() && bytes@
                    == self.view().config.subrange(0, size as int),
                Err(e) => e == Error::InvalidConfiguration && size > self.view().config.len(),
            },
    ;
}

/// Looks at what kind of device sits behind the transport, for the caller
/// to pick the driver by.
///
/// Fails with `UnsupportedDeviceType` if it is none of the kinds the drivers
/// know; such a device is to be passed over, not treated as a fault.
pub fn probe<T: Transport>(transport: &T) -> (r: Result<DeviceType, Error>)
    requires
        transport.wf(),
    ensures
        match r {
            Ok(t) => t == transport.view().device_type && t != DeviceType::Unrecognized,
            Err(e) => e == Error::UnsupportedDeviceType && transport.view().device_type
                == DeviceType::Unrecognized,
        },
{
    match transport.device_type() {
        DeviceType::Unrecognized => Err(Error::UnsupportedDeviceType),
        t => Ok(t),
    }
}

/// Brings a device from reset to the point where its queues can be set up.
///
/// Resets the device, sets acknowledge and driver, reads what the device
/// offers, writes back what both sides name, sets features-ok and reads the
/// status again. Returns the agreed features if the device kept features-ok
/// set. Otherwise marks the device failed and reports
/// `FeatureNegotiationFailed`.
pub fn begin_init<T: Transport>(transport: &mut T, requested: u64) -> (r: Result<u64, Error>)
    requires
        old(transport).wf(),
    ensures
        final(transport).wf(),
        match r {
            Ok(agreed) => {
                &&& agreed == spec_negotiate(old(transport).view().offered, requested)
                &&& old(transport).view().acceptable.contains(agreed)
                &&& final(transport).view() == old(transport).view().negotiated(requested)
            },
            Err(e) => {
                &&& e == Error::FeatureNegotiationFailed
                &&& !old(transport).view().acceptable.contains(
                    spec_negotiate(old(transport).view().offered, requested),
                )
                &&& final(transport).view() == old(transport).view().refused(requested)
            },
        },
{
    proof {
        lemma_status_bits();
    }
    transport.set_status(0);
    transport.set_status(STATUS_ACKNOWLEDGE | STATUS_DRIVER);
    let offered = transport.read_device_features();
    let agreed = negotiate(offered, requested);
    transport.write_driver_features(agreed);
    transport.set_status(STATUS_ACKNOWLEDGE | STATUS_DRIVER | STATUS_FEATURES_OK);
    let status = transport.get_status();
    if status & STATUS_FEATURES_OK != 0 {
        Ok(agreed)
    } else {
        transport.set_status(STATUS_ACKNOWLEDGE | STATUS_DRIVER | STATUS_FAILED);
        Err(Error::FeatureNegotiationFailed)
    }
}

/// Sets driver-ok on top of what the status register holds: from here on the
/// device may process queue traffic. No bit that was set is cleared by the
/// driver, so a device that was marked failed stays so.
pub fn finish_init<T: Transport>(transport: &mut T)
    requires
        old(transport).wf(),
    ensures
        final(transport).wf(),
        final(transport).view() == old(transport).view().after_status_write(
            old(transport).view().status | STATUS_DRIVER_OK,
        ),
        final(transport).view().status & STATUS_DRIVER_OK != 0,
        final(transport).view().status & STATUS_FAILED == old(transport).view().status
            & STATUS_FAILED,
        old(transport).view().status & STATUS_FEATURES_OK == 0 || old(
            transport,
        ).view().acceptable.contains(old(transport).view().accepted) ==> final(transport).view()
            == (TransportState {
            status: old(transport).view().status | STATUS_DRIVER_OK,
            ..old(transport).view()
        }),
{
    let status = transport.get_status();
    proof {
        lemma_driver_ok(status);
    }
    transport.set_status(status | STATUS_DRIVER_OK);
}

/// Negotiating again with what was agreed changes nothing.
pub proof fn lemma_negotiate_idempotent(offered: u64, requested: u64)
    ensures
        spec_negotiate(offered, spec_negotiate(offered, requested)) == spec_negotiate(
            offered,
            requested,
        ),
{
    assert(offered & (offered & requested) == offered & requested) by (bit_vector);
}

/// It does not matter which side names which set, nor in which order two
/// requests are put to the device.
pub proof fn lemma_negotiate_commutative(offered: u64, first: u64, second: u64)
    ensures
        spec_negotiate(offered, first) == spec_negotiate(first, offered),
        spec_negotiate(spec_negotiate(offered, first), second) == spec_negotiate(
            spec_negotiate(offered, second),
            first,
        ),
{
    assert(offered & first == first & offered) by (bit_vector);
    assert((offered & first) & second == (offered & second) & first) by (bit_vector);
}

/// What is agreed is named by both sides, and every feature that both sides name is agreed.
pub proof fn lemma_negotiate_is_intersection(offered: u64, requested: u64, feature: u64)
    ensures
        spec_has(offered, spec_negotiate(offered, requested)),
        spec_has(requested, spec_negotiate(offered, requested)),
        spec_has(spec_negotiate(offered, requested), feature) <==> spec_has(offered, feature)
            && spec_has(requested, feature),
{
    assert(offered & (offered & requested) == offered & requested) by (bit_vector);
    assert(requested & (offered & requested) == offered & requested) by (bit_vector);
    assert(((offered & requested) & feature == feature) <==> (offered & feature == feature
        && requested & feature == feature)) by (bit_vector);
}

/// The facts about the status words that the handshake writes.
pub proof fn lemma_status_bits()
    ensures
        STATUS_ACKNOWLEDGE | STATUS_DRIVER == 3,
        STATUS_ACKNOWLEDGE | STATUS_DRIVER | STATUS_FEATURES_OK == 11,
        STATUS_ACKNOWLEDGE | STATUS_DRIVER | STATUS_FAILED == 131,
        3u8 & STATUS_FEATURES_OK == 0,
        11u8 & STATUS_FEATURES_OK != 0,
        131u8 & STATUS_FEATURES_OK == 0,
        11u8 & !STATUS_FEATURES_OK == 3,
        11u8 & STATUS_DRIVER_OK == 0,
        11u8 | STATUS_DRIVER_OK == 15,
        15u8 & STATUS_DRIVER_OK != 0,
        15u8 & STATUS_FEATURES_OK != 0,
        STATUS_ACKNOWLEDGE | STATUS_DRIVER | STATUS_FEATURES_OK | STATUS_DRIVER_OK == 15,
{
    assert(15u8 & 8u8 != 0) by (bit_vector);
    assert(1u8 | 2u8 | 8u8 | 4u8 == 15) by (bit_vector);
    assert(1u8 | 2u8 == 3) by (bit_vector);
    assert(1u8 | 2u8 | 8u8 == 11) by (bit_vector);
    assert(1u8 | 2u8 | 128u8 == 131) by (bit_vector);
    assert(3u8 & 8u8 == 0) by (bit_vector);
    assert(11u8 & 8u8 != 0) by (bit_vector);
    assert(131u8 & 8u8 == 0) by (bit_vector);
    assert(11u8 & !8u8 == 3) by (bit_vector);
    assert(11u8 & 4u8 == 0) by (bit_vector);
    assert(11u8 | 4u8 == 15) by (bit_vector);
    assert(15u8 & 4u8 != 0) by (bit_vector);
}

/// Setting driver-ok never writes zero, and neither it nor a refusal of
/// features-ok touches the failed bit.
proof fn lemma_driver_ok(status: u8)
    ensures
        status | STATUS_DRIVER_OK != 0,
        (status | STATUS_DRIVER_OK) & STATUS_FEATURES_OK != 0 ==> status & STATUS_FEATURES_OK != 0,
        (status | STATUS_DRIVER_OK) & STATUS_DRIVER_OK != 0,
        (status | STATUS_DRIVER_OK) & !STATUS_FEATURES_OK & STATUS_DRIVER_OK != 0,
        (status | STATUS_DRIVER_OK) & STATUS_FAILED == status & STATUS_FAILED,
        (status | STATUS_DRIVER_OK) & !STATUS_FEATURES_OK & STATUS_FAILED == status & STATUS_FAILED,
{
    assert((status | 4u8) & 128u8 == status & 128u8) by (bit_vector);
    assert((status | 4u8) & !8u8 & 128u8 == status & 128u8) by (bit_vector);
    assert((status | 4u8) & 4u8 != 0) by (bit_vector);
    assert((status | 4u8) & !8u8 & 4u8 != 0) by (bit_vector);
    assert(status | 4u8 != 0) by (bit_vector);
    assert((status | 4u8) & 8u8 != 0 ==> status & 8u8 != 0) by (bit_vector);
}

} // verus!
