use virtio_drivers::device::sound::{
    ChannelPosition, CommandCode, PcmFrameRate, PcmSampleFormat, PcmStreamFeatures, SoundFeatures,
    VirtIOSound, VirtIOSoundConfig, CONFIG_BYTES, QUEUE_SIZE,
};
use virtio_drivers::hal::pool::PagePool;
use virtio_drivers::transport::simulated::SimulatedTransport;
use virtio_drivers::queue::VirtQueue;
use virtio_drivers::transport::{begin_init, DeviceType, Transport};
use virtio_drivers::Error;

fn config_bytes() -> Vec<u8> {
    // jacks = 2, streams = 0x0102_0304, chmaps = 0xffff_ffff, and one byte more
    vec![2, 0, 0, 0, 4, 3, 2, 1, 0xff, 0xff, 0xff, 0xff, 0x55]
}

fn sound_device(offered: u64, required: u64, queue_max: &[u32]) -> SimulatedTransport {
    SimulatedTransport::new(DeviceType::Sound, 0x1af4, offered, required, queue_max, config_bytes())
}

fn pool(pages: usize) -> PagePool {
    PagePool::new(0x80, pages).unwrap()
}

#[test]
fn all_features_are_the_named_bits() {
    let mut bits = 0u64;
    for bit in [24, 27, 28, 29, 30, 32, 33, 34, 35, 36, 37, 38, 39, 40] {
        bits |= 1 << bit;
    }
    assert_eq!(SoundFeatures::ALL, bits);
    assert_eq!(SoundFeatures::all().bits(), bits);
    assert_eq!(SoundFeatures::empty().bits(), 0);
    assert_eq!(SoundFeatures::VIRTIO_F_INDIRECT_DESC, 1 << 28);
    assert_eq!(SoundFeatures::VIRTIO_F_EVENT_IDX, 1 << 29);
    assert_eq!(SoundFeatures::VIRTIO_F_VERSION_1, 1 << 32);
    assert_eq!(SoundFeatures::VIRTIO_F_RING_RESET, 1 << 40);
}

#[test]
fn from_bits_truncate_drops_unnamed_bits() {
    assert_eq!(SoundFeatures::from_bits_truncate(u64::MAX), SoundFeatures::all());
    assert_eq!(SoundFeatures::from_bits_truncate(1 | 1 << 28 | 1 << 31), SoundFeatures { bits: 1 << 28 });
    assert_eq!(SoundFeatures::from_bits_truncate(0), SoundFeatures::empty());
}

#[test]
fn contains_asks_for_every_bit() {
    let f = SoundFeatures { bits: SoundFeatures::VIRTIO_F_INDIRECT_DESC | SoundFeatures::VIRTIO_F_VERSION_1 };
    assert!(f.contains(SoundFeatures::VIRTIO_F_INDIRECT_DESC));
    assert!(f.contains(SoundFeatures::VIRTIO_F_VERSION_1));
    assert!(f.contains(SoundFeatures::VIRTIO_F_INDIRECT_DESC | SoundFeatures::VIRTIO_F_VERSION_1));
    assert!(!f.contains(SoundFeatures::VIRTIO_F_EVENT_IDX));
    assert!(!f.contains(SoundFeatures::VIRTIO_F_INDIRECT_DESC | SoundFeatures::VIRTIO_F_EVENT_IDX));
    assert!(f.contains(0));
}

#[test]
fn features_as_text() {
    assert_eq!(String::from(SoundFeatures::empty()), "[]");
    assert_eq!(
        String::from(SoundFeatures { bits: SoundFeatures::VIRTIO_F_VERSION_1 }),
        "[VERSION_1]"
    );
    assert_eq!(
        String::from(SoundFeatures {
            bits: SoundFeatures::VIRTIO_F_VERSION_1 | SoundFeatures::VIRTIO_F_INDIRECT_DESC
        }),
        "[RING_INDIRECT_DESC, VERSION_1]"
    );
    assert_eq!(
        String::from(SoundFeatures::all()),
        "[NOTIFY_ON_EMPTY, ANY_LAYOUT, RING_INDIRECT_DESC, RING_EVENT_IDX, UNUSED, VERSION_1, \
         ACCESS_PLATFORM, RING_PACKED, IN_ORDER, ORDER_PLATFORM, SR_IOV, NOTIFICATION_DATA]"
    );
    // The two highest bits are not written out.
    assert_eq!(
        String::from(SoundFeatures {
            bits: SoundFeatures::VIRTIO_F_NOTIF_CONFIG_DATA | SoundFeatures::VIRTIO_F_RING_RESET
        }),
        "[]"
    );
    assert_eq!(
        String::from(SoundFeatures {
            bits: SoundFeatures::VIRTIO_F_NOTIFICATION_DATA | SoundFeatures::VIRTIO_F_NOTIFY_ON_EMPTY | 1
        }),
        "[NOTIFY_ON_EMPTY, NOTIFICATION_DATA]"
    );
}

#[test]
fn config_is_three_little_endian_words() {
    assert_eq!(CONFIG_BYTES, 12);
    assert_eq!(
        VirtIOSoundConfig::parse(&config_bytes()),
        Ok(VirtIOSoundConfig { jacks: 2, streams: 0x0102_0304, chmaps: 0xffff_ffff })
    );
    assert_eq!(
        VirtIOSoundConfig::parse(&[0, 1, 0, 0, 0, 0, 1, 0, 0, 0, 0, 0x80]),
        Ok(VirtIOSoundConfig { jacks: 0x100, streams: 0x1_0000, chmaps: 0x8000_0000 })
    );
    assert_eq!(VirtIOSoundConfig::parse(&config_bytes()[..11]), Err(Error::InvalidConfiguration));
    assert_eq!(VirtIOSoundConfig::parse(&[]), Err(Error::InvalidConfiguration));
}

#[test]
fn new_brings_the_device_up() {
    let offered = SoundFeatures::VIRTIO_F_INDIRECT_DESC | SoundFeatures::VIRTIO_F_VERSION_1 | 1;
    let transport = sound_device(offered, SoundFeatures::VIRTIO_F_VERSION_1, &[64, 64, 64, 16]);
    let driver = VirtIOSound::new(pool(16), transport).unwrap();
    assert_eq!(
        driver.negotiated_features(),
        SoundFeatures { bits: SoundFeatures::VIRTIO_F_INDIRECT_DESC | SoundFeatures::VIRTIO_F_VERSION_1 }
    );
    assert_eq!(
        driver.config(),
        VirtIOSoundConfig { jacks: 2, streams: 0x0102_0304, chmaps: 0xffff_ffff }
    );
    let t = driver.transport();
    assert_eq!(t.get_status(), 1 | 2 | 4 | 8);
    assert_eq!(t.driver_features(), driver.negotiated_features().bits());
    // Each queue has its own index and its own two pages.
    for q in 0..4u16 {
        let config = t.queue_config(q).unwrap();
        assert_eq!(config.size, QUEUE_SIZE as u32);
        assert_eq!(config.descriptors.0, (0x80 + 2 * q as u64) * 4096);
        assert_eq!(config.driver_area.0, config.descriptors.0 + 16 * 16);
        assert_eq!(config.device_area.0, config.descriptors.0 + 4096);
    }
    assert_eq!(t.queue_config(4), None);
    let hal = driver.hal();
    assert!((0..8).all(|p| hal.page_in_use(p)));
    assert!((8..16).all(|p| !hal.page_in_use(p)));
}

#[test]
fn new_does_not_look_at_the_device_type() {
    for device_type in [DeviceType::Block, DeviceType::Network, DeviceType::Unrecognized] {
        let transport =
            SimulatedTransport::new(device_type, 0, 0, 0, &[64, 64, 64, 64], config_bytes());
        let driver = VirtIOSound::new(pool(16), transport).unwrap();
        assert_eq!(driver.transport().get_status(), 15);
        assert_eq!(driver.transport().device_type(), device_type);
    }
}

#[test]
fn errors_come_in_the_order_of_the_steps() {
    // Refusal comes before the short configuration, and that before the small queue.
    let refusing_short_small =
        SimulatedTransport::new(DeviceType::Block, 0, 1, 1, &[8], vec![0; 3]);
    assert_eq!(
        VirtIOSound::new(pool(0), refusing_short_small).err(),
        Some(Error::FeatureNegotiationFailed)
    );
    let short_small = SimulatedTransport::new(DeviceType::Block, 0, 0, 0, &[8], vec![0; 3]);
    assert_eq!(VirtIOSound::new(pool(0), short_small).err(), Some(Error::InvalidConfiguration));
    let small = SimulatedTransport::new(DeviceType::Block, 0, 0, 0, &[8], config_bytes());
    assert_eq!(VirtIOSound::new(pool(0), small).err(), Some(Error::QueueSizeUnsupported));
    let fine = sound_device(0, 0, &[16, 16, 16, 16]);
    assert_eq!(VirtIOSound::new(pool(0), fine).err(), Some(Error::OutOfMemory));
}

#[test]
fn set_up_takes_agreed_features_and_configuration() {
    let mut transport = sound_device(SoundFeatures::ALL, 0, &[16, 16, 16, 16]);
    let agreed = begin_init(&mut transport, SoundFeatures::VIRTIO_F_EVENT_IDX).unwrap();
    let config = VirtIOSoundConfig { jacks: 1, streams: 2, chmaps: 3 };
    let driver =
        VirtIOSound::set_up(pool(8), transport, SoundFeatures { bits: agreed }, config).unwrap();
    assert_eq!(driver.negotiated_features().bits(), SoundFeatures::VIRTIO_F_EVENT_IDX);
    assert_eq!(driver.config(), config);
    assert_eq!(driver.transport().get_status(), 15);
    assert_eq!(driver.transport().queue_config(3).unwrap().size, 16);
    let mut small = sound_device(0, 0, &[16, 16, 16, 8]);
    begin_init(&mut small, 0).unwrap();
    let r = VirtIOSound::set_up(pool(8), small, SoundFeatures::empty(), config);
    assert_eq!(r.err(), Some(Error::QueueSizeUnsupported));
}

#[test]
fn from_queues_sets_driver_ok() {
    let mut hal = pool(8);
    let mut transport = sound_device(0, 0, &[16, 16, 16, 16]);
    begin_init(&mut transport, 0).unwrap();
    let mut queues = Vec::new();
    for q in 0..4u16 {
        queues.push(VirtQueue::new(&mut hal, &mut transport, q, 16, false, false).unwrap());
    }
    let rx = queues.pop().unwrap();
    let tx = queues.pop().unwrap();
    let event = queues.pop().unwrap();
    let control = queues.pop().unwrap();
    assert_eq!(transport.get_status(), 1 | 2 | 8);
    let config = VirtIOSoundConfig { jacks: 0, streams: 0, chmaps: 0 };
    let driver = VirtIOSound::from_queues(
        hal,
        transport,
        SoundFeatures::empty(),
        config,
        control,
        event,
        tx,
        rx,
    );
    assert_eq!(driver.transport().get_status(), 1 | 2 | 4 | 8);
    assert_eq!(driver.negotiated_features(), SoundFeatures::empty());
    assert_eq!(driver.config(), config);
}

#[test]
fn new_reports_a_refusal() {
    // The device insists on a feature that has no name, so no driver can ask for it.
    let transport = sound_device(SoundFeatures::ALL | 1, 1, &[64, 64, 64, 64]);
    assert_eq!(VirtIOSound::new(pool(16), transport).err(), Some(Error::FeatureNegotiationFailed));
}

#[test]
fn new_rejects_a_short_configuration() {
    let transport =
        SimulatedTransport::new(DeviceType::Sound, 0, 0, 0, &[64, 64, 64, 64], vec![0; 11]);
    assert_eq!(VirtIOSound::new(pool(16), transport).err(), Some(Error::InvalidConfiguration));
}

#[test]
fn new_rejects_a_device_with_small_or_few_queues() {
    let transport = sound_device(0, 0, &[64, 64, 8, 64]);
    assert_eq!(VirtIOSound::new(pool(16), transport).err(), Some(Error::QueueSizeUnsupported));
    let transport = sound_device(0, 0, &[64, 64, 64]);
    assert_eq!(VirtIOSound::new(pool(16), transport).err(), Some(Error::QueueSizeUnsupported));
}

#[test]
fn new_runs_out_of_memory() {
    let transport = sound_device(0, 0, &[64, 64, 64, 64]);
    assert_eq!(VirtIOSound::new(pool(7), transport).err(), Some(Error::OutOfMemory));
    let transport = sound_device(0, 0, &[64, 64, 64, 64]);
    assert!(VirtIOSound::new(pool(8), transport).is_ok());
}

#[test]
fn ack_interrupt_reports_and_clears() {
    let mut hal = pool(8);
    let mut transport = sound_device(0, 0, &[16, 16, 16, 16]);
    begin_init(&mut transport, 0).unwrap();
    let control = VirtQueue::new(&mut hal, &mut transport, 0, 16, false, false).unwrap();
    let event = VirtQueue::new(&mut hal, &mut transport, 1, 16, false, false).unwrap();
    let tx = VirtQueue::new(&mut hal, &mut transport, 2, 16, false, false).unwrap();
    let rx = VirtQueue::new(&mut hal, &mut transport, 3, 16, false, false).unwrap();
    // The device raises an interrupt while the driver comes up.
    transport.raise_interrupt();
    let config = VirtIOSoundConfig { jacks: 0, streams: 0, chmaps: 0 };
    let mut driver = VirtIOSound::from_queues(
        hal,
        transport,
        SoundFeatures::empty(),
        config,
        control,
        event,
        tx,
        rx,
    );
    assert!(driver.ack_interrupt());
    assert!(!driver.ack_interrupt());
    assert_eq!(driver.transport().get_status(), 15);
}

#[test]
fn ack_interrupt_without_an_interrupt() {
    let mut transport = sound_device(0, 0, &[64, 64, 64, 64]);
    transport.raise_interrupt();
    // Coming up resets the device, and with it the pending interrupt.
    let mut driver = VirtIOSound::new(pool(8), transport).unwrap();
    assert!(!driver.ack_interrupt());
}

#[test]
fn command_codes() {
    assert_eq!(u32::from(CommandCode::VirtioSndRJackInfo), 1);
    assert_eq!(u32::from(CommandCode::VirtioSndRJackRemap), 2);
    assert_eq!(u32::from(CommandCode::VirtioSndRPcmInfo), 0x0100);
    assert_eq!(u32::from(CommandCode::VirtioSndRPcmSetParams), 0x0101);
    assert_eq!(u32::from(CommandCode::VirtioSndRPcmPrepare), 0x0102);
    assert_eq!(u32::from(CommandCode::VirtioSndRPcmRelease), 0x0103);
    assert_eq!(u32::from(CommandCode::VirtioSndRPcmStart), 0x0104);
    assert_eq!(u32::from(CommandCode::VirtioSndRPcmStop), 0x0105);
    assert_eq!(u32::from(CommandCode::VirtioSndRChmapInfo), 0x0200);
    assert_eq!(u32::from(CommandCode::VirtioSndEvtJackConnected), 0x1000);
    assert_eq!(u32::from(CommandCode::VirtioSndEvtJackDisconnected), 0x1001);
    assert_eq!(u32::from(CommandCode::VirtioSndEvtPcmPeriodElapsed), 0x1100);
    assert_eq!(u32::from(CommandCode::VirtioSndEvtPcmXrun), 0x1101);
    assert_eq!(u32::from(CommandCode::VirtioSndSOk), 0x8000);
    assert_eq!(u32::from(CommandCode::VirtioSndSBadMsg), 0x8001);
    assert_eq!(u32::from(CommandCode::VirtioSndSNotSupp), 0x8002);
    assert_eq!(u32::from(CommandCode::VirtioSndSIoErr), 0x8003);
}

#[test]
fn stream_feature_positions() {
    assert_eq!(u32::from(PcmStreamFeatures::VirtioSndPcmFShmemHost), 0);
    assert_eq!(u32::from(PcmStreamFeatures::VirtioSndPcmFShmemGuest), 1);
    assert_eq!(u32::from(PcmStreamFeatures::VirtioSndPcmFMsgPolling), 2);
    assert_eq!(u32::from(PcmStreamFeatures::VirtioSndPcmFEvtShmemPeriods), 3);
    assert_eq!(u32::from(PcmStreamFeatures::VirtioSndPcmFEvtXruns), 4);
}

#[test]
fn sample_format_positions() {
    assert_eq!(u64::from(PcmSampleFormat::VirtioSndPcmFmtImaAdpcm), 0);
    assert_eq!(u64::from(PcmSampleFormat::VirtioSndPcmFmtU8), 4);
    assert_eq!(u64::from(PcmSampleFormat::VirtioSndPcmFmtS16), 5);
    assert_eq!(u64::from(PcmSampleFormat::VirtioSndPcmFmtU24_3), 12);
    assert_eq!(u64::from(PcmSampleFormat::VirtioSndPcmFmtS20), 13);
    assert_eq!(u64::from(PcmSampleFormat::VirtioSndPcmFmtU32), 18);
    assert_eq!(u64::from(PcmSampleFormat::VirtioSndPcmFmtFloat64), 20);
    assert_eq!(u64::from(PcmSampleFormat::VirtioSndPcmFmtDsdU8), 21);
    assert_eq!(u64::from(PcmSampleFormat::VirtioSndPcmFmtIec958Subframe), 24);
}

#[test]
fn frame_rate_positions() {
    assert_eq!(u64::from(PcmFrameRate::VirtioSndPcmRate5512), 0);
    assert_eq!(u64::from(PcmFrameRate::VirtioSndPcmRate8000), 1);
    assert_eq!(u64::from(PcmFrameRate::VirtioSndPcmRate44100), 6);
    assert_eq!(u64::from(PcmFrameRate::VirtioSndPcmRate48000), 7);
    assert_eq!(u64::from(PcmFrameRate::VirtioSndPcmRate192000), 12);
    assert_eq!(u64::from(PcmFrameRate::VirtioSndPcmRate384000), 13);
}

#[test]
fn channel_position_codes() {
    assert_eq!(u8::from(ChannelPosition::VirtioSndChmapNone), 0);
    assert_eq!(u8::from(ChannelPosition::VirtioSndChmapNa), 1);
    assert_eq!(u8::from(ChannelPosition::VirtioSndChmapMono), 2);
    assert_eq!(u8::from(ChannelPosition::VirtioSndChmapFl), 3);
    assert_eq!(u8::from(ChannelPosition::VirtioSndChmapFr), 4);
    assert_eq!(u8::from(ChannelPosition::VirtioSndChmapLfe), 8);
    assert_eq!(u8::from(ChannelPosition::VirtioSndChmapRrc), 15);
    assert_eq!(u8::from(ChannelPosition::VirtioSndChmapTc), 21);
    assert_eq!(u8::from(ChannelPosition::VirtioSndChmapTsr), 31);
    assert_eq!(u8::from(ChannelPosition::VirtioSndChmapLlfe), 32);
    assert_eq!(u8::from(ChannelPosition::VirtioSndChmapBrc), 36);
}
