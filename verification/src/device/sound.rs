//! The sound device driver: brings the device up, reads how many jacks,
//! streams and channel maps it has, and sets up its four queues.
use vstd::prelude::*;

use crate::hal::{Hal, HalState, PhysAddr};
use crate::queue::{is_power_of_two, size_supported, QueueIdentity, QueueView, VirtQueue};
use crate::transport::{
    begin_init, finish_init, lemma_status_bits, spec_negotiate, Transport,
    TransportState, STATUS_ACKNOWLEDGE, STATUS_DRIVER, STATUS_DRIVER_OK, STATUS_FEATURES_OK,
};
use crate::Error;

verus! {

/// Number of entries of each queue of the driver.
pub const QUEUE_SIZE: u16 = 16;

/// Queue index of the control queue.
pub const CONTROL_QUEUE_IDX: u16 = 0;

/// Queue index of the event queue.
pub const EVENT_QUEUE_IDX: u16 = 1;

/// Queue index of the transmit queue.
pub const TX_QUEUE_IDX: u16 = 2;

/// Queue index of the receive queue.
pub const RX_QUEUE_IDX: u16 = 3;

/// Bytes of the device-specific configuration that the driver reads.
pub const CONFIG_BYTES: usize = 12;

/// A set of feature bits of a sound device. The device defines no feature
/// of its own, so these are the bits every device shares.
#[derive(Clone, Copy, Debug, PartialEq, Eq, Structural)]
pub struct SoundFeatures {
    /// The bits of the set.
    pub bits: u64,
}

impl SoundFeatures {
    /// Bit 24: the device notifies when a queue runs empty (legacy).
    pub const VIRTIO_F_NOTIFY_ON_EMPTY: u64 = 0x0100_0000;

    /// Bit 27: buffers may be laid out freely (legacy).
    pub const VIRTIO_F_ANY_LAYOUT: u64 = 0x0800_0000;

    /// Bit 28: indirect descriptors.
    pub const VIRTIO_F_INDIRECT_DESC: u64 = 0x1000_0000;

    /// Bit 29: notification suppression by event index.
    pub const VIRTIO_F_EVENT_IDX: u64 = 0x2000_0000;

    /// Bit 30: not used (legacy).
    pub const UNUSED: u64 = 0x4000_0000;

    /// Bit 32: the device follows version 1 of the protocol.
    pub const VIRTIO_F_VERSION_1: u64 = 0x1_0000_0000;

    /// Bit 33: the device sits behind a platform that limits or translates its accesses.
    pub const VIRTIO_F_ACCESS_PLATFORM: u64 = 0x2_0000_0000;

    /// Bit 34: the packed ring layout.
    pub const VIRTIO_F_RING_PACKED: u64 = 0x4_0000_0000;

    /// Bit 35: buffers are used in the order they were made available.
    pub const VIRTIO_F_IN_ORDER: u64 = 0x8_0000_0000;

    /// Bit 36: memory accesses are ordered as the platform describes.
    pub const VIRTIO_F_ORDER_PLATFORM: u64 = 0x10_0000_0000;

    /// Bit 37: single-root I/O virtualisation.
    pub const VIRTIO_F_SR_IOV: u64 = 0x20_0000_0000;

    /// Bit 38: the driver passes extra data in its notifications.
    pub const VIRTIO_F_NOTIFICATION_DATA: u64 = 0x40_0000_0000;

    /// Bit 39: the notification data is taken from the queue's configuration.
    pub const VIRTIO_F_NOTIF_CONFIG_DATA: u64 = 0x80_0000_0000;

    /// Bit 40: queues can be reset one by one.
    pub const VIRTIO_F_RING_RESET: u64 = 0x100_0000_0000;

    /// Every named bit: bits 24, 27 to 30 and 32 to 40.
    pub const ALL: u64 = 0x1ff_7900_0000;

    /// The set of every named bit.
    pub fn all() -> (f: SoundFeatures)
        ensures
            f.bits == Self::ALL,
    {
        SoundFeatures { bits: Self::ALL }
    }

    /// The empty set.
    pub fn empty() -> (f: SoundFeatures)
        ensures
            f.bits == 0,
    {
        SoundFeatures { bits: 0 }
    }

    /// The set of the named bits among `bits`; the others are dropped.
    pub fn from_bits_truncate(bits: u64) -> (f: SoundFeatures)
        ensures
            f.bits == bits & Self::ALL,
    {
        SoundFeatures { bits: bits & Self::ALL }
    }

    /// The bits of the set.
    pub fn bits(&self) -> (b: u64)
        ensures
            b == self.bits,
    {
        self.bits
    }

    /// Whether every bit of `flags` is in the set.
    pub open spec fn spec_contains(self, flags: u64) -> bool {
        self.bits & flags == flags
    }

    /// Whether every bit of `flags` is in the set.
    pub fn contains(&self, flags: u64) -> (b: bool)
        ensures
            b == self.spec_contains(flags),
    {
        self.bits & flags == flags
    }

    /// The names of the features of the set, in the order of their bits. The
    /// two highest named bits have no name here.
    pub open spec fn names(self) -> Seq<Seq<char>> {
        let n = Seq::<Seq<char>>::empty();
        let n = with_name(n, self.spec_contains(Self::VIRTIO_F_NOTIFY_ON_EMPTY), "NOTIFY_ON_EMPTY"@);
        let n = with_name(n, self.spec_contains(Self::VIRTIO_F_ANY_LAYOUT), "ANY_LAYOUT"@);
        let n = with_name(
            n,
            self.spec_contains(Self::VIRTIO_F_INDIRECT_DESC),
            "RING_INDIRECT_DESC"@,
        );
        let n = with_name(n, self.spec_contains(Self::VIRTIO_F_EVENT_IDX), "RING_EVENT_IDX"@);
        let n = with_name(n, self.spec_contains(Self::UNUSED), "UNUSED"@);
        let n = with_name(n, self.spec_contains(Self::VIRTIO_F_VERSION_1), "VERSION_1"@);
        let n = with_name(
            n,
            self.spec_contains(Self::VIRTIO_F_ACCESS_PLATFORM),
            "ACCESS_PLATFORM"@,
        );
        let n = with_name(n, self.spec_contains(Self::VIRTIO_F_RING_PACKED), "RING_PACKED"@);
        let n = with_name(n, self.spec_contains(Self::VIRTIO_F_IN_ORDER), "IN_ORDER"@);
        let n = with_name(n, self.spec_contains(Self::VIRTIO_F_ORDER_PLATFORM), "ORDER_PLATFORM"@);
        let n = with_name(n, self.spec_contains(Self::VIRTIO_F_SR_IOV), "SR_IOV"@);
        let n = with_name(
            n,
            self.spec_contains(Self::VIRTIO_F_NOTIFICATION_DATA),
            "NOTIFICATION_DATA"@,
        );
        n
    }

    /// The set written out: its names, separated by a comma and a space, in
    /// square brackets.
    pub open spec fn text(self) -> Seq<char> {
        "["@ + join(self.names()) + "]"@
    }
}

/// `names`, with `name` behind it if `present`.
#[verifier::opaque]
pub open spec fn with_name(names: Seq<Seq<char>>, present: bool, name: Seq<char>) -> Seq<
    Seq<char>,
> {
    if present {
        names.push(name)
    } else {
        names
    }
}

/// The names in a row, with a comma and a space between each two.
#[verifier::opaque]
pub open spec fn join(names: Seq<Seq<char>>) -> Seq<char>
    decreases names.len(),
{
    if names.len() == 0 {
        Seq::empty()
    } else if names.len() == 1 {
        names[0]
    } else {
        join(names.drop_last()) + ", "@ + names.last()
    }
}

/// Writes `name` behind what `out` lists already, if `present`.
fn put_name(
    out: &mut String,
    any: &mut bool,
    present: bool,
    name: &str,
    Ghost(names): Ghost<Seq<Seq<char>>>,
)
    requires
        old(out)@ == "["@ + join(names),
        *old(any) == (names.len() > 0),
    ensures
        final(out)@ == "["@ + join(with_name(names, present, name@)),
        *final(any) == (with_name(names, present, name@).len() > 0),
{
    reveal(join);
    reveal(with_name);
    if present {
        let ghost longer = names.push(name@);
        assert(longer.drop_last() =~= names);
        if *any {
            out.append(", ");
        }
        out.append(name);
        *any = true;
    }
}

impl From<SoundFeatures> for String {
    /// The set written out, as in `[RING_INDIRECT_DESC, VERSION_1]`.
    fn from(sound_features: SoundFeatures) -> (s: String)
        ensures
            s@ == sound_features.text(),
    {
        let f = sound_features;
        let mut out = String::new();
        out.append("[");
        let mut any = false;
        let ghost n0 = Seq::<Seq<char>>::empty();
        assert(out@ =~= "["@ + join(n0)) by {
            reveal(join);
        }
        put_name(
            &mut out,
            &mut any,
            f.contains(SoundFeatures::VIRTIO_F_NOTIFY_ON_EMPTY),
            "NOTIFY_ON_EMPTY",
            Ghost(n0),
        );
        let ghost n1 = with_name(
            n0,
            f.spec_contains(SoundFeatures::VIRTIO_F_NOTIFY_ON_EMPTY),
            "NOTIFY_ON_EMPTY"@,
        );
        put_name(
            &mut out,
            &mut any,
            f.contains(SoundFeatures::VIRTIO_F_ANY_LAYOUT),
            "ANY_LAYOUT",
            Ghost(n1),
        );
        let ghost n2 = with_name(n1, f.spec_contains(SoundFeatures::VIRTIO_F_ANY_LAYOUT), "ANY_LAYOUT"@);
        put_name(
            &mut out,
            &mut any,
            f.contains(SoundFeatures::VIRTIO_F_INDIRECT_DESC),
            "RING_INDIRECT_DESC",
            Ghost(n2),
        );
        let ghost n3 = with_name(
            n2,
            f.spec_contains(SoundFeatures::VIRTIO_F_INDIRECT_DESC),
            "RING_INDIRECT_DESC"@,
        );
        put_name(
            &mut out,
            &mut any,
            f.contains(SoundFeatures::VIRTIO_F_EVENT_IDX),
            "RING_EVENT_IDX",
            Ghost(n3),
        );
        let ghost n4 = with_name(
            n3,
            f.spec_contains(SoundFeatures::VIRTIO_F_EVENT_IDX),
            "RING_EVENT_IDX"@,
        );
        put_name(&mut out, &mut any, f.contains(SoundFeatures::UNUSED), "UNUSED", Ghost(n4));
        let ghost n5 = with_name(n4, f.spec_contains(SoundFeatures::UNUSED), "UNUSED"@);
        put_name(
            &mut out,
            &mut any,
            f.contains(SoundFeatures::VIRTIO_F_VERSION_1),
            "VERSION_1",
            Ghost(n5),
        );
        let ghost n6 = with_name(n5, f.spec_contains(SoundFeatures::VIRTIO_F_VERSION_1), "VERSION_1"@);
        put_name(
            &mut out,
            &mut any,
            f.contains(SoundFeatures::VIRTIO_F_ACCESS_PLATFORM),
            "ACCESS_PLATFORM",
            Ghost(n6),
        );
        let ghost n7 = with_name(
            n6,
            f.spec_contains(SoundFeatures::VIRTIO_F_ACCESS_PLATFORM),
            "ACCESS_PLATFORM"@,
        );
        put_name(
            &mut out,
            &mut any,
            f.contains(SoundFeatures::VIRTIO_F_RING_PACKED),
            "RING_PACKED",
            Ghost(n7),
        );
        let ghost n8 = with_name(
            n7,
            f.spec_contains(SoundFeatures::VIRTIO_F_RING_PACKED),
            "RING_PACKED"@,
        );
        put_name(
            &mut out,
            &mut any,
            f.contains(SoundFeatures::VIRTIO_F_IN_ORDER),
            "IN_ORDER",
            Ghost(n8),
        );
        let ghost n9 = with_name(n8, f.spec_contains(SoundFeatures::VIRTIO_F_IN_ORDER), "IN_ORDER"@);
        put_name(
            &mut out,
            &mut any,
            f.contains(SoundFeatures::VIRTIO_F_ORDER_PLATFORM),
            "ORDER_PLATFORM",
            Ghost(n9),
        );
        let ghost n10 = with_name(
            n9,
            f.spec_contains(SoundFeatures::VIRTIO_F_ORDER_PLATFORM),
            "ORDER_PLATFORM"@,
        );
        put_name(
            &mut out,
            &mut any,
            f.contains(SoundFeatures::VIRTIO_F_SR_IOV),
            "SR_IOV",
            Ghost(n10),
        );
        let ghost n11 = with_name(n10, f.spec_contains(SoundFeatures::VIRTIO_F_SR_IOV), "SR_IOV"@);
        put_name(
            &mut out,
            &mut any,
            f.contains(SoundFeatures::VIRTIO_F_NOTIFICATION_DATA),
            "NOTIFICATION_DATA",
            Ghost(n11),
        );
        out.append("]");
        out
    }
}

impl vstd::std_specs::convert::FromSpecImpl<SoundFeatures> for String {
    open spec fn obeys_from_spec() -> bool {
        false
    }

    open spec fn from_spec(sound_features: SoundFeatures) -> String {
        arbitrary()
    }
}

/// What the device's configuration region says.
#[derive(Clone, Copy, Debug, PartialEq, Eq, Structural)]
pub struct VirtIOSoundConfig {
    /// Number of jacks.
    pub jacks: u32,
    /// Number of PCM streams.
    pub streams: u32,
    /// Number of channel maps.
    pub chmaps: u32,
}

/// The number that four bytes hold, least significant byte first.
pub open spec fn le_u32(bytes: Seq<u8>, at: int) -> u32 {
    (bytes[at] + bytes[at + 1] * 0x100 + bytes[at + 2] * 0x1_0000 + bytes[at + 3] * 0x100_0000) as u32
}

impl VirtIOSoundConfig {
    /// The configuration that the first twelve bytes of the region hold:
    /// three numbers of four bytes each, least significant byte first.
    pub open spec fn spec_parse(bytes: Seq<u8>) -> VirtIOSoundConfig {
        VirtIOSoundConfig {
            jacks: le_u32(bytes, 0),
            streams: le_u32(bytes, 4),
            chmaps: le_u32(bytes, 8),
        }
    }

    /// Reads the configuration from the bytes of the region.
    ///
    /// Fails with `InvalidConfiguration` if there are fewer than twelve bytes.
    pub fn parse(bytes: &[u8]) -> (r: Result<VirtIOSoundConfig, Error>)
        ensures
            match r {
                Ok(config) => bytes@.len() >= CONFIG_BYTES && config == Self::spec_parse(bytes@),
                Err(e) => e == Error::InvalidConfiguration && bytes@.len() < CONFIG_BYTES,
            },
    {
        if bytes.len() < CONFIG_BYTES {
            return Err(Error::InvalidConfiguration);
        }
        Ok(
            VirtIOSoundConfig {
                jacks: read_le_u32(bytes, 0),
                streams: read_le_u32(bytes, 4),
                chmaps: read_le_u32(bytes, 8),
            },
        )
    }
}

/// Reads four bytes as a number, least significant byte first.
fn read_le_u32(bytes: &[u8], at: usize) -> (v: u32)
    requires
        at + 4 <= bytes@.len(),
    ensures
        v == le_u32(bytes@, at as int),
{
    bytes[at] as u32 + bytes[at + 1] as u32 * 0x100 + bytes[at + 2] as u32 * 0x1_0000 + bytes[at
        + 3] as u32 * 0x100_0000
}

/// The driver as mathematics.
#[verifier::ext_equal]
pub struct SoundView {
    /// The device behind the driver.
    pub transport: TransportState,
    /// What the driver's HAL is accountable for.
    pub hal: HalState,
    /// The control, event, transmit and receive queue, by queue index.
    pub queues: Seq<QueueView>,
    /// What each queue was set up with.
    pub identities: Seq<QueueIdentity>,
    /// The features that driver and device agreed on.
    pub features: SoundFeatures,
    /// What the device's configuration region said when the driver came up.
    pub config: VirtIOSoundConfig,
}

/// A set of regions, with the two regions of a queue added.
pub open spec fn with_queue(allocated: Map<PhysAddr, nat>, identity: QueueIdentity) -> Map<
    PhysAddr,
    nat,
> {
    allocated.insert(identity.driver_area.paddr, identity.driver_area.pages as nat).insert(
        identity.device_area.paddr,
        identity.device_area.pages as nat,
    )
}

/// The driver of a sound device.
pub struct VirtIOSound<H: Hal, T: Transport> {
    hal: H,
    transport: T,
    control_queue: VirtQueue,
    event_queue: VirtQueue,
    tx_queue: VirtQueue,
    rx_queue: VirtQueue,
    negotiated_features: SoundFeatures,
    config: VirtIOSoundConfig,
}

impl<H: Hal, T: Transport> View for VirtIOSound<H, T> {
    type V = SoundView;

    closed spec fn view(&self) -> SoundView {
        SoundView {
            transport: self.transport.view(),
            hal: self.hal.view(),
            queues: seq![
                self.control_queue@,
                self.event_queue@,
                self.tx_queue@,
                self.rx_queue@,
            ],
            identities: seq![
                self.control_queue.identity(),
                self.event_queue.identity(),
                self.tx_queue.identity(),
                self.rx_queue.identity(),
            ],
            features: self.negotiated_features,
            config: self.config,
        }
    }
}

impl<H: Hal, T: Transport> VirtIOSound<H, T> {
    /// The representation is consistent: every part is, and the memory of
    /// every queue is out on loan from the driver's HAL.
    pub closed spec fn wf(&self) -> bool {
        &&& self.hal.wf()
        &&& self.transport.wf()
        &&& self.control_queue.wf()
        &&& self.event_queue.wf()
        &&& self.tx_queue.wf()
        &&& self.rx_queue.wf()
        &&& self.control_queue.identity().backed_by(self.hal.view())
        &&& self.event_queue.identity().backed_by(self.hal.view())
        &&& self.tx_queue.identity().backed_by(self.hal.view())
        &&& self.rx_queue.identity().backed_by(self.hal.view())
    }

    /// What a well-formed driver holds: four queues, each within the
    /// invariant of its view and of the size it was set up with, and the
    /// memory of each out on loan from the driver's HAL.
    pub proof fn lemma_inv(&self)
        requires
            self.wf(),
        ensures
            self@.queues.len() == 4,
            self@.identities.len() == 4,
            forall|i: int|
                0 <= i < 4 ==> {
                    &&& (#[trigger] self@.queues[i]).inv()
                    &&& self@.queues[i].size() == self@.identities[i].size
                    &&& self@.identities[i].backed_by(self@.hal)
                    &&& self@.identities[i].config().aligned()
                },
    {
        self.control_queue.lemma_inv();
        self.event_queue.lemma_inv();
        self.tx_queue.lemma_inv();
        self.rx_queue.lemma_inv();
    }

    /// Whether the device takes a queue of the driver's size at each of the four queue indices.
    pub open spec fn queues_supported(device: TransportState) -> bool {
        &&& size_supported(QUEUE_SIZE, device.max_size(CONTROL_QUEUE_IDX))
        &&& size_supported(QUEUE_SIZE, device.max_size(EVENT_QUEUE_IDX))
        &&& size_supported(QUEUE_SIZE, device.max_size(TX_QUEUE_IDX))
        &&& size_supported(QUEUE_SIZE, device.max_size(RX_QUEUE_IDX))
    }

    /// The device with the four queues `identities` programmed at queue indices 0 to 3.
    pub open spec fn programmed(
        device: TransportState,
        identities: Seq<QueueIdentity>,
    ) -> TransportState {
        TransportState {
            queues: device.queues.insert(CONTROL_QUEUE_IDX, identities[0].config()).insert(
                EVENT_QUEUE_IDX,
                identities[1].config(),
            ).insert(TX_QUEUE_IDX, identities[2].config()).insert(
                RX_QUEUE_IDX,
                identities[3].config(),
            ),
            ..device
        }
    }

    /// The device after the driver has come up with the queues `identities`.
    pub open spec fn brought_up(
        device: TransportState,
        identities: Seq<QueueIdentity>,
    ) -> TransportState {
        TransportState {
            status: STATUS_ACKNOWLEDGE | STATUS_DRIVER | STATUS_FEATURES_OK | STATUS_DRIVER_OK,
            ..Self::programmed(device.negotiated(SoundFeatures::ALL), identities)
        }
    }

    /// The four queues are fresh queues of the driver's size at queue indices
    /// 0 to 3, set up for indirect descriptors and event index as `features` says.
    pub open spec fn queues_fresh(
        queues: Seq<QueueView>,
        identities: Seq<QueueIdentity>,
        features: SoundFeatures,
    ) -> bool {
        &&& queues.len() == 4
        &&& identities.len() == 4
        &&& forall|i: int|
            0 <= i < 4 ==> {
                &&& (#[trigger] queues[i]).is_fresh(QUEUE_SIZE as nat)
                &&& identities[i].queue_index == i
                &&& identities[i].size == QUEUE_SIZE
                &&& identities[i].indirect == features.spec_contains(
                    SoundFeatures::VIRTIO_F_INDIRECT_DESC,
                )
                &&& identities[i].event_idx == features.spec_contains(
                    SoundFeatures::VIRTIO_F_EVENT_IDX,
                )
            }
    }

    /// Asks the device whether it takes a queue of the driver's size at each
    /// of the four queue indices.
    fn queues_fit(transport: &mut T) -> (fit: bool)
        requires
            old(transport).wf(),
        ensures
            final(transport).wf(),
            final(transport).view() == old(transport).view(),
            fit == Self::queues_supported(old(transport).view()),
    {
        assert(is_power_of_two(QUEUE_SIZE)) by {
            assert(16u16 != 0 && 16u16 & ((16u16 - 1) as u16) == 0) by (bit_vector);
        }
        let control = transport.max_queue_size(CONTROL_QUEUE_IDX);
        let event = transport.max_queue_size(EVENT_QUEUE_IDX);
        let tx = transport.max_queue_size(TX_QUEUE_IDX);
        let rx = transport.max_queue_size(RX_QUEUE_IDX);
        let size = QUEUE_SIZE as u32;
        size <= control && size <= event && size <= tx && size <= rx
    }

    /// Brings a sound device up: negotiates the features, reads the
    /// configuration, sets up the control, event, transmit and receive queue
    /// at queue indices 0 to 3, and sets driver-ok.
    ///
    /// Fails with `FeatureNegotiationFailed` if the device refuses the
    /// features, with `InvalidConfiguration` if its configuration region is
    /// too short, with `QueueSizeUnsupported` if it does not take a queue of
    /// sixteen entries at each of the four indices, and with `OutOfMemory` if
    /// the HAL runs out of memory.
    pub fn new(hal: H, transport: T) -> (r: Result<Self, Error>)
        requires
            hal.wf(),
            transport.wf(),
        ensures
            match r {
                Ok(driver) => {
                    let device = transport.view();
                    let v = driver@;
                    &&& driver.wf()
                    &&& device.acceptable.contains(
                        spec_negotiate(device.offered, SoundFeatures::ALL),
                    )
                    &&& device.config.len() >= CONFIG_BYTES
                    &&& Self::queues_supported(device)
                    &&& v.features.bits == spec_negotiate(device.offered, SoundFeatures::ALL)
                    &&& v.config == VirtIOSoundConfig::spec_parse(device.config)
                    &&& Self::queues_fresh(v.queues, v.identities, v.features)
                    &&& v.transport == Self::brought_up(device, v.identities)
                    &&& v.hal == (HalState {
                        allocated: with_queue(
                            with_queue(
                                with_queue(
                                    with_queue(hal.view().allocated, v.identities[0]),
                                    v.identities[1],
                                ),
                                v.identities[2],
                            ),
                            v.identities[3],
                        ),
                        ..hal.view()
                    })
                },
                Err(e) => {
                    let device = transport.view();
                    let agreed = spec_negotiate(device.offered, SoundFeatures::ALL);
                    &&& e == Error::FeatureNegotiationFailed <==> !device.acceptable.contains(
                        agreed,
                    )
                    &&& e == Error::InvalidConfiguration <==> device.acceptable.contains(agreed)
                        && device.config.len() < CONFIG_BYTES
                    &&& e == Error::QueueSizeUnsupported <==> device.acceptable.contains(agreed)
                        && device.config.len() >= CONFIG_BYTES && !Self::queues_supported(device)
                    &&& e == Error::FeatureNegotiationFailed || e == Error::InvalidConfiguration
                        || e == Error::QueueSizeUnsupported || e == Error::OutOfMemory
                },
            },
    {
        let mut transport = transport;
        let ghost device = transport.view();
        let agreed = match begin_init(&mut transport, SoundFeatures::ALL) {
            Ok(agreed) => agreed,
            Err(e) => {
                return Err(e);
            },
        };
        let negotiated_features = SoundFeatures { bits: agreed };
        let bytes = match transport.config_space(CONFIG_BYTES) {
            Ok(bytes) => bytes,
            Err(e) => {
                return Err(e);
            },
        };
        let config = match VirtIOSoundConfig::parse(bytes.as_slice()) {
            Ok(config) => config,
            Err(e) => {
                return Err(e);
            },
        };
        proof {
            lemma_status_bits();
        }
        Self::set_up(hal, transport, negotiated_features, config)
    }

    /// Sets up the four queues on a device whose features are agreed, and
    /// sets driver-ok.
    ///
    /// Fails with `QueueSizeUnsupported` if the device does not take a queue
    /// of sixteen entries at each of the four indices, and with `OutOfMemory`
    /// if the HAL runs out of memory.
    pub fn set_up(
        hal: H,
        transport: T,
        negotiated_features: SoundFeatures,
        config: VirtIOSoundConfig,
    ) -> (r: Result<Self, Error>)
        requires
            hal.wf(),
            transport.wf(),
            transport.view().status & STATUS_DRIVER_OK == 0,
        ensures
            match r {
                Ok(driver) => {
                    let device = transport.view();
                    let v = driver@;
                    &&& driver.wf()
                    &&& Self::queues_supported(device)
                    &&& v.features == negotiated_features
                    &&& v.config == config
                    &&& Self::queues_fresh(v.queues, v.identities, v.features)
                    &&& v.transport == Self::programmed(device, v.identities).after_status_write(
                        device.status | STATUS_DRIVER_OK,
                    )
                    &&& v.hal == (HalState {
                        allocated: with_queue(
                            with_queue(
                                with_queue(
                                    with_queue(hal.view().allocated, v.identities[0]),
                                    v.identities[1],
                                ),
                                v.identities[2],
                            ),
                            v.identities[3],
                        ),
                        ..hal.view()
                    })
                },
                Err(e) => {
                    &&& e == Error::QueueSizeUnsupported <==> !Self::queues_supported(
                        transport.view(),
                    )
                    &&& e == Error::QueueSizeUnsupported || e == Error::OutOfMemory
                },
            },
    {
        let mut hal = hal;
        let mut transport = transport;
        if !Self::queues_fit(&mut transport) {
            return Err(Error::QueueSizeUnsupported);
        }
        let indirect = negotiated_features.contains(SoundFeatures::VIRTIO_F_INDIRECT_DESC);
        let event_idx = negotiated_features.contains(SoundFeatures::VIRTIO_F_EVENT_IDX);
        let control_queue = match VirtQueue::new(
            &mut hal,
            &mut transport,
            CONTROL_QUEUE_IDX,
            QUEUE_SIZE,
            indirect,
            event_idx,
        ) {
            Ok(queue) => queue,
            Err(e) => {
                return Err(e);
            },
        };
        let event_queue = match VirtQueue::new(
            &mut hal,
            &mut transport,
            EVENT_QUEUE_IDX,
            QUEUE_SIZE,
            indirect,
            event_idx,
        ) {
            Ok(queue) => queue,
            Err(e) => {
                return Err(e);
            },
        };
        let tx_queue = match VirtQueue::new(
            &mut hal,
            &mut transport,
            TX_QUEUE_IDX,
            QUEUE_SIZE,
            indirect,
            event_idx,
        ) {
            Ok(queue) => queue,
            Err(e) => {
                return Err(e);
            },
        };
        let rx_queue = match VirtQueue::new(
            &mut hal,
            &mut transport,
            RX_QUEUE_IDX,
            QUEUE_SIZE,
            indirect,
            event_idx,
        ) {
            Ok(queue) => queue,
            Err(e) => {
                return Err(e);
            },
        };
        Ok(
            Self::from_queues(
                hal,
                transport,
                negotiated_features,
                config,
                control_queue,
                event_queue,
                tx_queue,
                rx_queue,
            ),
        )
    }

    /// Makes the driver of four queues that are set up already, and sets
    /// driver-ok on top of what the status register holds.
    pub fn from_queues(
        hal: H,
        transport: T,
        negotiated_features: SoundFeatures,
        config: VirtIOSoundConfig,
        control_queue: VirtQueue,
        event_queue: VirtQueue,
        tx_queue: VirtQueue,
        rx_queue: VirtQueue,
    ) -> (driver: Self)
        requires
            hal.wf(),
            transport.wf(),
            control_queue.wf(),
            event_queue.wf(),
            tx_queue.wf(),
            rx_queue.wf(),
            control_queue.identity().backed_by(hal.view()),
            event_queue.identity().backed_by(hal.view()),
            tx_queue.identity().backed_by(hal.view()),
            rx_queue.identity().backed_by(hal.view()),
        ensures
            driver.wf(),
            driver@ == (SoundView {
                transport: transport.view().after_status_write(
                    transport.view().status | STATUS_DRIVER_OK,
                ),
                hal: hal.view(),
                queues: seq![control_queue@, event_queue@, tx_queue@, rx_queue@],
                identities: seq![
                    control_queue.identity(),
                    event_queue.identity(),
                    tx_queue.identity(),
                    rx_queue.identity(),
                ],
                features: negotiated_features,
                config,
            }),
    {
        let mut transport = transport;
        finish_init(&mut transport);
        VirtIOSound {
            hal,
            transport,
            control_queue,
            event_queue,
            tx_queue,
            rx_queue,
            negotiated_features,
            config,
        }
    }

    /// Acknowledges an interrupt: clears the device's pending interrupt
    /// cause and says whether there was one.
    pub fn ack_interrupt(&mut self) -> (pending: bool)
        requires
            old(self).wf(),
        ensures
            final(self).wf(),
            pending == old(self)@.transport.interrupt_pending,
            final(self)@ == (SoundView {
                transport: TransportState { interrupt_pending: false, ..old(self)@.transport },
                ..old(self)@
            }),
    {
        self.transport.ack_interrupt()
    }

    /// The features that driver and device agreed on.
    pub fn negotiated_features(&self) -> (f: SoundFeatures)
        ensures
            f == self@.features,
    {
        self.negotiated_features
    }

    /// What the device's configuration region said when the driver came up.
    pub fn config(&self) -> (c: VirtIOSoundConfig)
        ensures
            c == self@.config,
    {
        self.config
    }

    /// The transport the driver talks through.
    pub fn transport(&self) -> (t: &T)
        ensures
            t.view() == self@.transport,
    {
        &self.transport
    }

    /// The HAL the driver takes its memory from.
    pub fn hal(&self) -> (h: &H)
        ensures
            h.view() == self@.hal,
    {
        &self.hal
    }
}

/// The codes of the control requests, of the events and of the status that
/// answers a request.
#[derive(Clone, Copy, Debug, PartialEq, Eq, Structural)]
pub enum CommandCode {
    VirtioSndRJackInfo,
    VirtioSndRJackRemap,
    VirtioSndRPcmInfo,
    VirtioSndRPcmSetParams,
    VirtioSndRPcmPrepare,
    VirtioSndRPcmRelease,
    VirtioSndRPcmStart,
    VirtioSndRPcmStop,
    VirtioSndRChmapInfo,
    VirtioSndEvtJackConnected,
    VirtioSndEvtJackDisconnected,
    VirtioSndEvtPcmPeriodElapsed,
    VirtioSndEvtPcmXrun,
    /// Success.
    VirtioSndSOk,
    /// A control message is malformed or holds invalid parameters.
    VirtioSndSBadMsg,
    /// The requested operation or parameters are not supported.
    VirtioSndSNotSupp,
    /// An I/O error occurred.
    VirtioSndSIoErr,
}

impl CommandCode {
    /// The number that stands for the code on the wire.
    pub open spec fn code(self) -> u32 {
        match self {
            CommandCode::VirtioSndRJackInfo => 1,
            CommandCode::VirtioSndRJackRemap => 2,
            CommandCode::VirtioSndRPcmInfo => 0x0100,
            CommandCode::VirtioSndRPcmSetParams => 0x0101,
            CommandCode::VirtioSndRPcmPrepare => 0x0102,
            CommandCode::VirtioSndRPcmRelease => 0x0103,
            CommandCode::VirtioSndRPcmStart => 0x0104,
            CommandCode::VirtioSndRPcmStop => 0x0105,
            CommandCode::VirtioSndRChmapInfo => 0x0200,
            CommandCode::VirtioSndEvtJackConnected => 0x1000,
            CommandCode::VirtioSndEvtJackDisconnected => 0x1001,
            CommandCode::VirtioSndEvtPcmPeriodElapsed => 0x1100,
            CommandCode::VirtioSndEvtPcmXrun => 0x1101,
            CommandCode::VirtioSndSOk => 0x8000,
            CommandCode::VirtioSndSBadMsg => 0x8001,
            CommandCode::VirtioSndSNotSupp => 0x8002,
            CommandCode::VirtioSndSIoErr => 0x8003,
        }
    }
}

impl From<CommandCode> for u32 {
    fn from(value: CommandCode) -> (code: u32) {
        match value {
            CommandCode::VirtioSndRJackInfo => 1,
            CommandCode::VirtioSndRJackRemap => 2,
            CommandCode::VirtioSndRPcmInfo => 0x0100,
            CommandCode::VirtioSndRPcmSetParams => 0x0101,
            CommandCode::VirtioSndRPcmPrepare => 0x0102,
            CommandCode::VirtioSndRPcmRelease => 0x0103,
            CommandCode::VirtioSndRPcmStart => 0x0104,
            CommandCode::VirtioSndRPcmStop => 0x0105,
            CommandCode::VirtioSndRChmapInfo => 0x0200,
            CommandCode::VirtioSndEvtJackConnected => 0x1000,
            CommandCode::VirtioSndEvtJackDisconnected => 0x1001,
            CommandCode::VirtioSndEvtPcmPeriodElapsed => 0x1100,
            CommandCode::VirtioSndEvtPcmXrun => 0x1101,
            CommandCode::VirtioSndSOk => 0x8000,
            CommandCode::VirtioSndSBadMsg => 0x8001,
            CommandCode::VirtioSndSNotSupp => 0x8002,
            CommandCode::VirtioSndSIoErr => 0x8003,
        }
    }
}

impl vstd::std_specs::convert::FromSpecImpl<CommandCode> for u32 {
    open spec fn obeys_from_spec() -> bool {
        true
    }

    open spec fn from_spec(value: CommandCode) -> u32 {
        value.code()
    }
}

/// The features of a PCM stream, by bit position.
#[derive(Clone, Copy, Debug, PartialEq, Eq, Structural)]
pub enum PcmStreamFeatures {
    VirtioSndPcmFShmemHost,
    VirtioSndPcmFShmemGuest,
    VirtioSndPcmFMsgPolling,
    VirtioSndPcmFEvtShmemPeriods,
    VirtioSndPcmFEvtXruns,
}

impl PcmStreamFeatures {
    /// The position of the feature's bit.
    pub open spec fn position(self) -> u32 {
        match self {
            PcmStreamFeatures::VirtioSndPcmFShmemHost => 0,
            PcmStreamFeatures::VirtioSndPcmFShmemGuest => 1,
            PcmStreamFeatures::VirtioSndPcmFMsgPolling => 2,
            PcmStreamFeatures::VirtioSndPcmFEvtShmemPeriods => 3,
            PcmStreamFeatures::VirtioSndPcmFEvtXruns => 4,
        }
    }
}

impl From<PcmStreamFeatures> for u32 {
    fn from(value: PcmStreamFeatures) -> (position: u32) {
        match value {
            PcmStreamFeatures::VirtioSndPcmFShmemHost => 0,
            PcmStreamFeatures::VirtioSndPcmFShmemGuest => 1,
            PcmStreamFeatures::VirtioSndPcmFMsgPolling => 2,
            PcmStreamFeatures::VirtioSndPcmFEvtShmemPeriods => 3,
            PcmStreamFeatures::VirtioSndPcmFEvtXruns => 4,
        }
    }
}

impl vstd::std_specs::convert::FromSpecImpl<PcmStreamFeatures> for u32 {
    open spec fn obeys_from_spec() -> bool {
        true
    }

    open spec fn from_spec(value: PcmStreamFeatures) -> u32 {
        value.position()
    }
}

/// The sample formats of a PCM stream, by bit position.
#[derive(Clone, Copy, Debug, PartialEq, Eq, Structural)]
pub enum PcmSampleFormat {
    VirtioSndPcmFmtImaAdpcm,
    VirtioSndPcmFmtMuLaw,
    VirtioSndPcmFmtALaw,
    VirtioSndPcmFmtS8,
    VirtioSndPcmFmtU8,
    VirtioSndPcmFmtS16,
    VirtioSndPcmFmtU16,
    VirtioSndPcmFmtS18_3,
    VirtioSndPcmFmtU18_3,
    VirtioSndPcmFmtS20_3,
    VirtioSndPcmFmtU20_3,
    VirtioSndPcmFmtS24_3,
    VirtioSndPcmFmtU24_3,
    VirtioSndPcmFmtS20,
    VirtioSndPcmFmtU20,
    VirtioSndPcmFmtS24,
    VirtioSndPcmFmtU24,
    VirtioSndPcmFmtS32,
    VirtioSndPcmFmtU32,
    VirtioSndPcmFmtFloat,
    VirtioSndPcmFmtFloat64,
    VirtioSndPcmFmtDsdU8,
    VirtioSndPcmFmtDsdU16,
    VirtioSndPcmFmtDsdU32,
    VirtioSndPcmFmtIec958Subframe,
}

impl PcmSampleFormat {
    /// The position of the format's bit.
    pub open spec fn position(self) -> u64 {
        match self {
            PcmSampleFormat::VirtioSndPcmFmtImaAdpcm => 0,
            PcmSampleFormat::VirtioSndPcmFmtMuLaw => 1,
            PcmSampleFormat::VirtioSndPcmFmtALaw => 2,
            PcmSampleFormat::VirtioSndPcmFmtS8 => 3,
            PcmSampleFormat::VirtioSndPcmFmtU8 => 4,
            PcmSampleFormat::VirtioSndPcmFmtS16 => 5,
            PcmSampleFormat::VirtioSndPcmFmtU16 => 6,
            PcmSampleFormat::VirtioSndPcmFmtS18_3 => 7,
            PcmSampleFormat::VirtioSndPcmFmtU18_3 => 8,
            PcmSampleFormat::VirtioSndPcmFmtS20_3 => 9,
            PcmSampleFormat::VirtioSndPcmFmtU20_3 => 10,
            PcmSampleFormat::VirtioSndPcmFmtS24_3 => 11,
            PcmSampleFormat::VirtioSndPcmFmtU24_3 => 12,
            PcmSampleFormat::VirtioSndPcmFmtS20 => 13,
            PcmSampleFormat::VirtioSndPcmFmtU20 => 14,
            PcmSampleFormat::VirtioSndPcmFmtS24 => 15,
            PcmSampleFormat::VirtioSndPcmFmtU24 => 16,
            PcmSampleFormat::VirtioSndPcmFmtS32 => 17,
            PcmSampleFormat::VirtioSndPcmFmtU32 => 18,
            PcmSampleFormat::VirtioSndPcmFmtFloat => 19,
            PcmSampleFormat::VirtioSndPcmFmtFloat64 => 20,
            PcmSampleFormat::VirtioSndPcmFmtDsdU8 => 21,
            PcmSampleFormat::VirtioSndPcmFmtDsdU16 => 22,
            PcmSampleFormat::VirtioSndPcmFmtDsdU32 => 23,
            PcmSampleFormat::VirtioSndPcmFmtIec958Subframe => 24,
        }
    }
}

impl From<PcmSampleFormat> for u64 {
    fn from(value: PcmSampleFormat) -> (position: u64) {
        match value {
            PcmSampleFormat::VirtioSndPcmFmtImaAdpcm => 0,
            PcmSampleFormat::VirtioSndPcmFmtMuLaw => 1,
            PcmSampleFormat::VirtioSndPcmFmtALaw => 2,
            PcmSampleFormat::VirtioSndPcmFmtS8 => 3,
            PcmSampleFormat::VirtioSndPcmFmtU8 => 4,
            PcmSampleFormat::VirtioSndPcmFmtS16 => 5,
            PcmSampleFormat::VirtioSndPcmFmtU16 => 6,
            PcmSampleFormat::VirtioSndPcmFmtS18_3 => 7,
            PcmSampleFormat::VirtioSndPcmFmtU18_3 => 8,
            PcmSampleFormat::VirtioSndPcmFmtS20_3 => 9,
            PcmSampleFormat::VirtioSndPcmFmtU20_3 => 10,
            PcmSampleFormat::VirtioSndPcmFmtS24_3 => 11,
            PcmSampleFormat::VirtioSndPcmFmtU24_3 => 12,
            PcmSampleFormat::VirtioSndPcmFmtS20 => 13,
            PcmSampleFormat::VirtioSndPcmFmtU20 => 14,
            PcmSampleFormat::VirtioSndPcmFmtS24 => 15,
            PcmSampleFormat::VirtioSndPcmFmtU24 => 16,
            PcmSampleFormat::VirtioSndPcmFmtS32 => 17,
            PcmSampleFormat::VirtioSndPcmFmtU32 => 18,
            PcmSampleFormat::VirtioSndPcmFmtFloat => 19,
            PcmSampleFormat::VirtioSndPcmFmtFloat64 => 20,
            PcmSampleFormat::VirtioSndPcmFmtDsdU8 => 21,
            PcmSampleFormat::VirtioSndPcmFmtDsdU16 => 22,
            PcmSampleFormat::VirtioSndPcmFmtDsdU32 => 23,
            PcmSampleFormat::VirtioSndPcmFmtIec958Subframe => 24,
        }
    }
}

impl vstd::std_specs::convert::FromSpecImpl<PcmSampleFormat> for u64 {
    open spec fn obeys_from_spec() -> bool {
        true
    }

    open spec fn from_spec(value: PcmSampleFormat) -> u64 {
        value.position()
    }
}

/// The frame rates of a PCM stream, by bit position.
#[derive(Clone, Copy, Debug, PartialEq, Eq, Structural)]
pub enum PcmFrameRate {
    VirtioSndPcmRate5512,
    VirtioSndPcmRate8000,
    VirtioSndPcmRate11025,
    VirtioSndPcmRate16000,
    VirtioSndPcmRate22050,
    VirtioSndPcmRate32000,
    VirtioSndPcmRate44100,
    VirtioSndPcmRate48000,
    VirtioSndPcmRate64000,
    VirtioSndPcmRate88200,
    VirtioSndPcmRate96000,
    VirtioSndPcmRate176400,
    VirtioSndPcmRate192000,
    VirtioSndPcmRate384000,
}

impl PcmFrameRate {
    /// The position of the rate's bit.
    pub open spec fn position(self) -> u64 {
        match self {
            PcmFrameRate::VirtioSndPcmRate5512 => 0,
            PcmFrameRate::VirtioSndPcmRate8000 => 1,
            PcmFrameRate::VirtioSndPcmRate11025 => 2,
            PcmFrameRate::VirtioSndPcmRate16000 => 3,
            PcmFrameRate::VirtioSndPcmRate22050 => 4,
            PcmFrameRate::VirtioSndPcmRate32000 => 5,
            PcmFrameRate::VirtioSndPcmRate44100 => 6,
            PcmFrameRate::VirtioSndPcmRate48000 => 7,
            PcmFrameRate::VirtioSndPcmRate64000 => 8,
            PcmFrameRate::VirtioSndPcmRate88200 => 9,
            PcmFrameRate::VirtioSndPcmRate96000 => 10,
            PcmFrameRate::VirtioSndPcmRate176400 => 11,
            PcmFrameRate::VirtioSndPcmRate192000 => 12,
            PcmFrameRate::VirtioSndPcmRate384000 => 13,
        }
    }
}

impl From<PcmFrameRate> for u64 {
    fn from(value: PcmFrameRate) -> (position: u64) {
        match value {
            PcmFrameRate::VirtioSndPcmRate5512 => 0,
            PcmFrameRate::VirtioSndPcmRate8000 => 1,
            PcmFrameRate::VirtioSndPcmRate11025 => 2,
            PcmFrameRate::VirtioSndPcmRate16000 => 3,
            PcmFrameRate::VirtioSndPcmRate22050 => 4,
            PcmFrameRate::VirtioSndPcmRate32000 => 5,
            PcmFrameRate::VirtioSndPcmRate44100 => 6,
            PcmFrameRate::VirtioSndPcmRate48000 => 7,
            PcmFrameRate::VirtioSndPcmRate64000 => 8,
            PcmFrameRate::VirtioSndPcmRate88200 => 9,
            PcmFrameRate::VirtioSndPcmRate96000 => 10,
            PcmFrameRate::VirtioSndPcmRate176400 => 11,
            PcmFrameRate::VirtioSndPcmRate192000 => 12,
            PcmFrameRate::VirtioSndPcmRate384000 => 13,
        }
    }
}

impl vstd::std_specs::convert::FromSpecImpl<PcmFrameRate> for u64 {
    open spec fn obeys_from_spec() -> bool {
        true
    }

    open spec fn from_spec(value: PcmFrameRate) -> u64 {
        value.position()
    }
}

/// The positions a channel of a channel map can stand for.
#[derive(Clone, Copy, Debug, PartialEq, Eq, Structural)]
pub enum ChannelPosition {
    /// Undefined.
    VirtioSndChmapNone,
    /// Silent.
    VirtioSndChmapNa,
    /// Mono stream.
    VirtioSndChmapMono,
    /// Front left.
    VirtioSndChmapFl,
    /// Front right.
    VirtioSndChmapFr,
    /// Rear left.
    VirtioSndChmapRl,
    /// Rear right.
    VirtioSndChmapRr,
    /// Front center.
    VirtioSndChmapFc,
    /// Low frequency.
    VirtioSndChmapLfe,
    /// Side left.
    VirtioSndChmapSl,
    /// Side right.
    VirtioSndChmapSr,
    /// Rear center.
    VirtioSndChmapRc,
    /// Front left center.
    VirtioSndChmapFlc,
    /// Front right center.
    VirtioSndChmapFrc,
    /// Rear left center.
    VirtioSndChmapRlc,
    /// Rear right center.
    VirtioSndChmapRrc,
    /// Front left wide.
    VirtioSndChmapFlw,
    /// Front right wide.
    VirtioSndChmapFrw,
    /// Front left high.
    VirtioSndChmapFlh,
    /// Front center high.
    VirtioSndChmapFch,
    /// Front right high.
    VirtioSndChmapFrh,
    /// Top center.
    VirtioSndChmapTc,
    /// Top front left.
    VirtioSndChmapTfl,
    /// Top front right.
    VirtioSndChmapTfr,
    /// Top front center.
    VirtioSndChmapTfc,
    /// Top rear left.
    VirtioSndChmapTrl,
    /// Top rear right.
    VirtioSndChmapTrr,
    /// Top rear center.
    VirtioSndChmapTrc,
    /// Top front left center.
    VirtioSndChmapTflc,
    /// Top front right center.
    VirtioSndChmapTfrc,
    /// Top side left.
    VirtioSndChmapTsl,
    /// Top side right.
    VirtioSndChmapTsr,
    /// Left low frequency.
    VirtioSndChmapLlfe,
    /// Right low frequency.
    VirtioSndChmapRlfe,
    /// Bottom center.
    VirtioSndChmapBc,
    /// Bottom left center.
    VirtioSndChmapBlc,
    /// Bottom right center.
    VirtioSndChmapBrc,
}

impl ChannelPosition {
    /// The number that stands for the position on the wire.
    pub open spec fn code(self) -> u8 {
        match self {
            ChannelPosition::VirtioSndChmapNone => 0,
            ChannelPosition::VirtioSndChmapNa => 1,
            ChannelPosition::VirtioSndChmapMono => 2,
            ChannelPosition::VirtioSndChmapFl => 3,
            ChannelPosition::VirtioSndChmapFr => 4,
            ChannelPosition::VirtioSndChmapRl => 5,
            ChannelPosition::VirtioSndChmapRr => 6,
            ChannelPosition::VirtioSndChmapFc => 7,
            ChannelPosition::VirtioSndChmapLfe => 8,
            ChannelPosition::VirtioSndChmapSl => 9,
            ChannelPosition::VirtioSndChmapSr => 10,
            ChannelPosition::VirtioSndChmapRc => 11,
            ChannelPosition::VirtioSndChmapFlc => 12,
            ChannelPosition::VirtioSndChmapFrc => 13,
            ChannelPosition::VirtioSndChmapRlc => 14,
            ChannelPosition::VirtioSndChmapRrc => 15,
            ChannelPosition::VirtioSndChmapFlw => 16,
            ChannelPosition::VirtioSndChmapFrw => 17,
            ChannelPosition::VirtioSndChmapFlh => 18,
            ChannelPosition::VirtioSndChmapFch => 19,
            ChannelPosition::VirtioSndChmapFrh => 20,
            ChannelPosition::VirtioSndChmapTc => 21,
            ChannelPosition::VirtioSndChmapTfl => 22,
            ChannelPosition::VirtioSndChmapTfr => 23,
            ChannelPosition::VirtioSndChmapTfc => 24,
            ChannelPosition::VirtioSndChmapTrl => 25,
            ChannelPosition::VirtioSndChmapTrr => 26,
            ChannelPosition::VirtioSndChmapTrc => 27,
            ChannelPosition::VirtioSndChmapTflc => 28,
            ChannelPosition::VirtioSndChmapTfrc => 29,
            ChannelPosition::VirtioSndChmapTsl => 30,
            ChannelPosition::VirtioSndChmapTsr => 31,
            ChannelPosition::VirtioSndChmapLlfe => 32,
            ChannelPosition::VirtioSndChmapRlfe => 33,
            ChannelPosition::VirtioSndChmapBc => 34,
            ChannelPosition::VirtioSndChmapBlc => 35,
            ChannelPosition::VirtioSndChmapBrc => 36,
        }
    }
}

impl From<ChannelPosition> for u8 {
    fn from(value: ChannelPosition) -> (code: u8) {
        match value {
            ChannelPosition::VirtioSndChmapNone => 0,
            ChannelPosition::VirtioSndChmapNa => 1,
            ChannelPosition::VirtioSndChmapMono => 2,
            ChannelPosition::VirtioSndChmapFl => 3,
            ChannelPosition::VirtioSndChmapFr => 4,
            ChannelPosition::VirtioSndChmapRl => 5,
            ChannelPosition::VirtioSndChmapRr => 6,
            ChannelPosition::VirtioSndChmapFc => 7,
            ChannelPosition::VirtioSndChmapLfe => 8,
            ChannelPosition::VirtioSndChmapSl => 9,
            ChannelPosition::VirtioSndChmapSr => 10,
            ChannelPosition::VirtioSndChmapRc => 11,
            ChannelPosition::VirtioSndChmapFlc => 12,
            ChannelPosition::VirtioSndChmapFrc => 13,
            ChannelPosition::VirtioSndChmapRlc => 14,
            ChannelPosition::VirtioSndChmapRrc => 15,
            ChannelPosition::VirtioSndChmapFlw => 16,
            ChannelPosition::VirtioSndChmapFrw => 17,
            ChannelPosition::VirtioSndChmapFlh => 18,
            ChannelPosition::VirtioSndChmapFch => 19,
            ChannelPosition::VirtioSndChmapFrh => 20,
            ChannelPosition::VirtioSndChmapTc => 21,
            ChannelPosition::VirtioSndChmapTfl => 22,
            ChannelPosition::VirtioSndChmapTfr => 23,
            ChannelPosition::VirtioSndChmapTfc => 24,
            ChannelPosition::VirtioSndChmapTrl => 25,
            ChannelPosition::VirtioSndChmapTrr => 26,
            ChannelPosition::VirtioSndChmapTrc => 27,
            ChannelPosition::VirtioSndChmapTflc => 28,
            ChannelPosition::VirtioSndChmapTfrc => 29,
            ChannelPosition::VirtioSndChmapTsl => 30,
            ChannelPosition::VirtioSndChmapTsr => 31,
            ChannelPosition::VirtioSndChmapLlfe => 32,
            ChannelPosition::VirtioSndChmapRlfe => 33,
            ChannelPosition::VirtioSndChmapBc => 34,
            ChannelPosition::VirtioSndChmapBlc => 35,
            ChannelPosition::VirtioSndChmapBrc => 36,
        }
    }
}

impl vstd::std_specs::convert::FromSpecImpl<ChannelPosition> for u8 {
    open spec fn obeys_from_spec() -> bool {
        true
    }

    open spec fn from_spec(value: ChannelPosition) -> u8 {
        value.code()
    }
}

} // verus!
