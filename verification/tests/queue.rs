use virtio_drivers::hal::pool::PagePool;
use virtio_drivers::hal::{Buffer, Dma, Hal, PhysAddr, VirtAddr};
use virtio_drivers::queue::table::{DescFlags, DescriptorTable, Segment};
use virtio_drivers::queue::{power_of_two, UsedElem, VirtQueue};
use virtio_drivers::transport::simulated::SimulatedTransport;
use virtio_drivers::transport::{
    begin_init, finish_init, DeviceType, Transport, FEATURE_EVENT_IDX, FEATURE_INDIRECT_DESC,
    FEATURE_VERSION_1, STATUS_DRIVER_OK,
};
use virtio_drivers::Error;

fn device(queue_max: &[u32]) -> SimulatedTransport {
    let mut transport = SimulatedTransport::new(DeviceType::Block, 0x554d4551, 0, 0, queue_max, Vec::new());
    assert_eq!(begin_init(&mut transport, 0), Ok(0));
    transport
}

fn pool() -> PagePool {
    PagePool::new(0x100, 64).unwrap()
}

fn queue(size: u16) -> (PagePool, SimulatedTransport, VirtQueue) {
    let mut hal = pool();
    let mut transport = device(&[256]);
    let queue = VirtQueue::new(&mut hal, &mut transport, 0, size, false, false).unwrap();
    (hal, transport, queue)
}

fn buffer(vaddr: usize, len: u32) -> Buffer {
    Buffer { vaddr: VirtAddr(vaddr), len }
}

#[test]
fn power_of_two_values() {
    for size in [1u16, 2, 4, 8, 16, 256, 0x4000, 0x8000] {
        assert!(power_of_two(size));
    }
    for size in [0u16, 3, 5, 6, 7, 12, 255, 0x8001, 0xffff] {
        assert!(!power_of_two(size));
    }
}

#[test]
fn new_queue_is_fresh() {
    let (hal, transport, queue) = queue(8);
    assert_eq!(queue.size(), 8);
    assert_eq!(queue.queue_index(), 0);
    assert_eq!(queue.available_desc(), 8);
    assert_eq!(queue.avail_idx(), 0);
    assert_eq!(queue.poll_used(), None);
    assert!(!queue.can_pop());
    for i in 0..7u16 {
        assert_eq!(queue.descriptor(i).unwrap().next, i + 1);
    }
    assert_eq!(queue.descriptor(8), None);
    assert_eq!(hal.shared_count(), 0);
    assert_eq!(transport.queue_config(0), Some(queue.config()));
}

#[test]
fn new_queue_layout() {
    let (hal, _transport, queue) = queue(16);
    let config = queue.config();
    assert_eq!(config.size, 16);
    // 16 descriptors and the available ring fit one page; the used ring takes another.
    assert_eq!(config.descriptors, PhysAddr(0x100 * 4096));
    assert_eq!(config.driver_area, PhysAddr(0x100 * 4096 + 16 * 16));
    assert_eq!(config.device_area, PhysAddr(0x101 * 4096));
    assert!(hal.page_in_use(0));
    assert!(hal.page_in_use(1));
    assert!(!hal.page_in_use(2));
}

#[test]
fn new_queue_layout_large() {
    let mut hal = PagePool::new(0, 256).unwrap();
    let mut transport = device(&[0x8000]);
    let queue = VirtQueue::new(&mut hal, &mut transport, 0, 0x8000, true, true).unwrap();
    // 16 * 32768 + 6 + 2 * 32768 bytes make 145 pages; 6 + 8 * 32768 bytes make 65.
    let config = queue.config();
    assert_eq!(config.descriptors, PhysAddr(0));
    assert_eq!(config.driver_area, PhysAddr(16 * 32768));
    assert_eq!(config.device_area, PhysAddr(145 * 4096));
    assert!(hal.page_in_use(144 + 65));
    assert!(!hal.page_in_use(145 + 65));
    assert!(queue.indirect());
    assert!(queue.event_idx());
    assert_eq!(queue.available_desc(), 0x8000);
}

#[test]
fn new_rejects_unsupported_sizes() {
    for size in [0u16, 3, 6, 100] {
        let mut hal = pool();
        let mut transport = device(&[256]);
        let r = VirtQueue::new(&mut hal, &mut transport, 0, size, false, false);
        assert_eq!(r.err(), Some(Error::QueueSizeUnsupported));
        assert!(!hal.page_in_use(0));
        assert_eq!(transport.queue_config(0), None);
    }
}

#[test]
fn new_rejects_size_above_device_maximum() {
    let mut hal = pool();
    let mut transport = device(&[8]);
    let r = VirtQueue::new(&mut hal, &mut transport, 0, 16, false, false);
    assert_eq!(r.err(), Some(Error::QueueSizeUnsupported));
    assert!(VirtQueue::new(&mut hal, &mut transport, 0, 8, false, false).is_ok());
}

#[test]
fn new_rejects_queue_the_device_lacks() {
    let mut hal = pool();
    let mut transport = device(&[8]);
    let r = VirtQueue::new(&mut hal, &mut transport, 1, 8, false, false);
    assert_eq!(r.err(), Some(Error::QueueSizeUnsupported));
}

#[test]
fn new_out_of_memory_leaves_nothing_behind() {
    // One page is enough for the driver area but leaves none for the used ring.
    let mut hal = PagePool::new(0, 1).unwrap();
    let mut transport = device(&[256]);
    let r = VirtQueue::new(&mut hal, &mut transport, 0, 16, false, false);
    assert_eq!(r.err(), Some(Error::OutOfMemory));
    assert!(!hal.page_in_use(0));
    assert_eq!(transport.queue_config(0), None);
}

#[test]
fn add_builds_chain_in_buffer_order() {
    let (mut hal, _transport, mut queue) = queue(8);
    let inputs = [buffer(0x1000, 16), buffer(0x2000, 512)];
    let outputs = [buffer(0x3000, 1)];
    let head = queue.add(&mut hal, &inputs, &outputs).unwrap();
    assert_eq!(head, 0);
    let d0 = queue.descriptor(0).unwrap();
    let d1 = queue.descriptor(1).unwrap();
    let d2 = queue.descriptor(2).unwrap();
    assert_eq!((d0.addr, d0.len, d0.next), (PhysAddr(0x1000), 16, 1));
    assert_eq!(d0.flags, DescFlags { next: true, write: false, indirect: false });
    assert_eq!((d1.addr, d1.len, d1.next), (PhysAddr(0x2000), 512, 2));
    assert_eq!(d1.flags, DescFlags { next: true, write: false, indirect: false });
    assert_eq!((d2.addr, d2.len), (PhysAddr(0x3000), 1));
    assert_eq!(d2.flags, DescFlags { next: false, write: true, indirect: false });
    assert_eq!(queue.avail_entry(0), 0);
    assert_eq!(queue.avail_idx(), 1);
    assert_eq!(queue.available_desc(), 5);
    assert_eq!(hal.shared_count(), 3);
}

#[test]
fn add_publishes_heads_in_order() {
    let (mut hal, _transport, mut queue) = queue(8);
    let a = queue.add(&mut hal, &[buffer(0x1000, 4), buffer(0x1100, 4)], &[]).unwrap();
    let b = queue.add(&mut hal, &[], &[buffer(0x2000, 4)]).unwrap();
    let c = queue.add(&mut hal, &[buffer(0x3000, 4)], &[buffer(0x3100, 4)]).unwrap();
    assert_eq!((a, b, c), (0, 2, 3));
    assert_eq!(queue.avail_idx(), 3);
    assert_eq!(queue.avail_entry(0), 0);
    assert_eq!(queue.avail_entry(1), 2);
    assert_eq!(queue.avail_entry(2), 3);
    assert_eq!(queue.available_desc(), 3);
}

#[test]
fn add_without_buffers_is_rejected() {
    let (mut hal, _transport, mut queue) = queue(8);
    assert_eq!(queue.add(&mut hal, &[], &[]), Err(Error::InvalidParam));
    assert_eq!(queue.available_desc(), 8);
    assert_eq!(queue.avail_idx(), 0);
    assert_eq!(hal.shared_count(), 0);
}

#[test]
fn add_beyond_capacity_changes_nothing() {
    let (mut hal, _transport, mut queue) = queue(4);
    queue.add(&mut hal, &[buffer(0x1000, 8), buffer(0x2000, 8)], &[]).unwrap();
    let before: Vec<_> = (0..4u16).map(|i| queue.descriptor(i)).collect();
    let inputs = [buffer(0x3000, 8), buffer(0x4000, 8)];
    let outputs = [buffer(0x5000, 8)];
    assert_eq!(queue.add(&mut hal, &inputs, &outputs), Err(Error::QueueFull));
    assert_eq!(queue.available_desc(), 2);
    assert_eq!(queue.avail_idx(), 1);
    assert_eq!(hal.shared_count(), 2);
    let after: Vec<_> = (0..4u16).map(|i| queue.descriptor(i)).collect();
    assert_eq!(before, after);
    // Exactly as many as are free still go in.
    assert_eq!(queue.add(&mut hal, &[buffer(0x3000, 8)], &[buffer(0x5000, 8)]), Ok(2));
    assert_eq!(queue.available_desc(), 0);
    assert_eq!(queue.add(&mut hal, &[buffer(0x6000, 8)], &[]), Err(Error::QueueFull));
}

#[test]
fn completion_round_trip() {
    let (mut hal, _transport, mut queue) = queue(8);
    let head = queue.add(&mut hal, &[buffer(0x1000, 512)], &[]).unwrap();
    assert_eq!(queue.poll_used(), None);
    queue.device_complete(head as u32, 512);
    assert!(queue.can_pop());
    assert_eq!(queue.poll_used(), Some((head, 512)));
    // Polling consumes nothing.
    assert_eq!(queue.poll_used(), Some((head, 512)));
    assert_eq!(queue.pop_used(&mut hal, head), Ok(512));
    assert_eq!(queue.poll_used(), None);
    assert_eq!(queue.available_desc(), 8);
    assert_eq!(hal.shared_count(), 0);
}

#[test]
fn pop_reports_what_the_device_wrote() {
    let (mut hal, _transport, mut queue) = queue(8);
    let outputs = [buffer(0x2000, 100), buffer(0x3000, 28)];
    let head = queue.add(&mut hal, &[buffer(0x1000, 16)], &outputs).unwrap();
    // The device fills both writable buffers: 100 + 28 bytes.
    queue.device_complete(head as u32, 128);
    assert_eq!(queue.pop_used(&mut hal, head), Ok(128));
    // A device that writes less reports less.
    let head = queue.add(&mut hal, &[buffer(0x1000, 16)], &outputs).unwrap();
    queue.device_complete(head as u32, 7);
    assert_eq!(queue.pop_used(&mut hal, head), Ok(7));
}

#[test]
fn pop_without_completion_is_rejected() {
    let (mut hal, _transport, mut queue) = queue(8);
    let head = queue.add(&mut hal, &[buffer(0x1000, 8)], &[]).unwrap();
    assert_eq!(queue.pop_used(&mut hal, head), Err(Error::WrongToken));
    assert_eq!(queue.available_desc(), 7);
    assert_eq!(hal.shared_count(), 1);
}

#[test]
fn pop_of_another_chain_is_rejected() {
    let (mut hal, _transport, mut queue) = queue(8);
    let a = queue.add(&mut hal, &[buffer(0x1000, 8)], &[]).unwrap();
    let b = queue.add(&mut hal, &[buffer(0x2000, 8)], &[]).unwrap();
    queue.device_complete(b as u32, 0);
    assert_eq!(queue.pop_used(&mut hal, a), Err(Error::WrongToken));
    assert_eq!(queue.available_desc(), 6);
    assert_eq!(queue.pop_used(&mut hal, b), Ok(0));
    assert_eq!(queue.available_desc(), 7);
}

#[test]
fn completion_of_unknown_chain_is_rejected() {
    // The device names a descriptor that heads no chain, then one outside the table,
    // then an id that only looks like chain 0 when cut to sixteen bits.
    for id in [5u32, 8, 0x1_0000] {
        let (mut hal, _transport, mut queue) = queue_with_one_chain();
        queue.device_complete(id, 64);
        let (token, len) = queue.poll_used().unwrap();
        assert_eq!(len, 64);
        assert_eq!(token, id as u16);
        assert_eq!(queue.pop_used(&mut hal, token), Err(Error::WrongToken));
        assert_eq!(queue.available_desc(), 7);
        assert_eq!(hal.shared_count(), 1);
    }
}

fn queue_with_one_chain() -> (PagePool, SimulatedTransport, VirtQueue) {
    let (mut hal, transport, mut queue) = queue(8);
    queue.add(&mut hal, &[buffer(0x1000, 8)], &[]).unwrap();
    (hal, transport, queue)
}

#[test]
fn completion_reported_twice_is_honoured_once() {
    let (mut hal, _transport, mut queue) = queue(8);
    let head = queue.add(&mut hal, &[buffer(0x1000, 8), buffer(0x2000, 8)], &[]).unwrap();
    queue.device_complete(head as u32, 1);
    queue.device_complete(head as u32, 2);
    assert_eq!(queue.pop_used(&mut hal, head), Ok(1));
    assert_eq!(queue.poll_used(), Some((head, 2)));
    assert_eq!(queue.pop_used(&mut hal, head), Err(Error::WrongToken));
    assert_eq!(queue.available_desc(), 8);
}

#[test]
fn out_of_order_completion() {
    let (mut hal, _transport, mut queue) = queue(8);
    let one = queue.add(&mut hal, &[buffer(0x1000, 8)], &[buffer(0x1100, 10)]).unwrap();
    let two = queue.add(&mut hal, &[buffer(0x2000, 8)], &[buffer(0x2100, 20)]).unwrap();
    let three = queue.add(&mut hal, &[buffer(0x3000, 8)], &[buffer(0x3100, 30)]).unwrap();
    queue.device_complete(two as u32, 20);
    queue.device_complete(one as u32, 10);
    queue.device_complete(three as u32, 30);
    assert_eq!(queue.poll_used(), Some((two, 20)));
    assert_eq!(queue.pop_used(&mut hal, one), Err(Error::WrongToken));
    assert_eq!(queue.pop_used(&mut hal, two), Ok(20));
    assert_eq!(queue.poll_used(), Some((one, 10)));
    assert_eq!(queue.pop_used(&mut hal, one), Ok(10));
    assert_eq!(queue.poll_used(), Some((three, 30)));
    assert_eq!(queue.pop_used(&mut hal, three), Ok(30));
    assert_eq!(queue.poll_used(), None);
    assert_eq!(queue.available_desc(), 8);
    assert_eq!(hal.shared_count(), 0);
}

#[test]
fn exhaust_then_reclaim_one_at_a_time() {
    let size = 8u16;
    let (mut hal, _transport, mut queue) = queue(size);
    let mut heads = Vec::new();
    for i in 0..size {
        heads.push(queue.add(&mut hal, &[buffer(0x1000 * (i as usize + 1), 4)], &[]).unwrap());
    }
    assert_eq!(queue.available_desc(), 0);
    assert_eq!(queue.add(&mut hal, &[buffer(0x9000, 4)], &[]), Err(Error::QueueFull));
    for round in 0..3 * size as usize {
        let done = heads.remove(0);
        queue.device_complete(done as u32, round as u32);
        assert_eq!(queue.pop_used(&mut hal, done), Ok(round as u32));
        assert_eq!(queue.available_desc(), 1);
        let head = queue.add(&mut hal, &[buffer(0xa000, 4)], &[]).unwrap();
        // The descriptor that was just reclaimed is the one that is handed out.
        assert_eq!(head, done);
        heads.push(head);
        assert_eq!(queue.available_desc(), 0);
    }
}

#[test]
fn free_plus_lent_is_the_table_size() {
    let (mut hal, _transport, mut queue) = queue(16);
    let mut outstanding: Vec<(u16, u16)> = Vec::new();
    let mut lent = 0u16;
    for step in 0..200usize {
        let want = (step % 3) + 1;
        let inputs: Vec<Buffer> = (0..want).map(|i| buffer(0x1000 + i * 0x100, 8)).collect();
        match queue.add(&mut hal, &inputs, &[]) {
            Ok(head) => {
                outstanding.push((head, want as u16));
                lent += want as u16;
            }
            Err(e) => {
                assert_eq!(e, Error::QueueFull);
                assert!(want as u16 > queue.available_desc());
            }
        }
        assert_eq!(queue.available_desc() + lent, 16);
        if step % 2 == 1 && !outstanding.is_empty() {
            let (head, n) = outstanding.remove(step % outstanding.len());
            queue.device_complete(head as u32, 0);
            assert_eq!(queue.pop_used(&mut hal, head), Ok(0));
            lent -= n;
        }
        assert_eq!(queue.available_desc() + lent, 16);
        assert_eq!(hal.shared_count(), lent as usize);
    }
}

#[test]
fn reclaimed_chain_goes_to_the_front_of_the_free_list() {
    let (mut hal, _transport, mut queue) = queue(8);
    let a = queue.add(&mut hal, &[buffer(0x1000, 8), buffer(0x1100, 8)], &[]).unwrap();
    let b = queue.add(&mut hal, &[buffer(0x2000, 8)], &[]).unwrap();
    assert_eq!((a, b), (0, 2));
    queue.device_complete(a as u32, 0);
    queue.pop_used(&mut hal, a).unwrap();
    // Free list is now 0, 1, 3, 4, ..: a chain of three takes 0, 1 and 3.
    let c = queue.add(&mut hal, &[buffer(0x3000, 1), buffer(0x3100, 2), buffer(0x3200, 3)], &[]).unwrap();
    assert_eq!(c, 0);
    assert_eq!(queue.descriptor(0).unwrap().next, 1);
    assert_eq!(queue.descriptor(1).unwrap().next, 3);
    assert_eq!(queue.descriptor(3).unwrap().len, 3);
    assert!(!queue.descriptor(3).unwrap().flags.next);
}

#[test]
fn ring_indices_wrap() {
    let (mut hal, _transport, mut queue) = queue(2);
    for round in 0..70_000u32 {
        let head = queue.add(&mut hal, &[buffer(0x1000, 8)], &[]).unwrap();
        assert_eq!(queue.avail_entry(round as u16), head);
        queue.device_complete(head as u32, round);
        assert_eq!(queue.poll_used(), Some((head, round)));
        assert_eq!(queue.pop_used(&mut hal, head), Ok(round));
    }
    assert_eq!(queue.avail_idx(), (70_000u32 % 65_536) as u16);
    assert_eq!(queue.available_desc(), 2);
}

#[test]
fn device_writes_touch_only_the_used_ring() {
    let (mut hal, _transport, mut queue) = queue(4);
    let head = queue.add(&mut hal, &[buffer(0x1000, 8)], &[]).unwrap();
    let before: Vec<_> = (0..4u16).map(|i| queue.descriptor(i)).collect();
    queue.device_write_used(6, UsedElem { id: head as u32, len: 9 });
    assert_eq!(queue.poll_used(), None);
    queue.device_set_used_idx(7);
    // Seven completions are claimed; the first to be consumed is in slot 0.
    assert!(queue.can_pop());
    queue.device_write_used(0, UsedElem { id: head as u32, len: 3 });
    assert_eq!(queue.poll_used(), Some((head, 3)));
    let after: Vec<_> = (0..4u16).map(|i| queue.descriptor(i)).collect();
    assert_eq!(before, after);
    assert_eq!(queue.avail_idx(), 1);
    assert_eq!(queue.available_desc(), 3);
}

#[test]
fn notify_names_the_queue() {
    let mut hal = pool();
    let mut transport = device(&[8, 8, 8]);
    let q0 = VirtQueue::new(&mut hal, &mut transport, 0, 8, false, false).unwrap();
    let q2 = VirtQueue::new(&mut hal, &mut transport, 2, 8, false, false).unwrap();
    q2.notify(&mut transport);
    q0.notify(&mut transport);
    q2.notify(&mut transport);
    assert_eq!(transport.notification_count(), 3);
    assert_eq!(transport.notification(0), Some(2));
    assert_eq!(transport.notification(1), Some(0));
    assert_eq!(transport.notification(2), Some(2));
    assert_eq!(transport.notification(3), None);
}

#[test]
fn release_returns_the_memory() {
    let mut hal = pool();
    let mut transport = device(&[8, 8]);
    let q0 = VirtQueue::new(&mut hal, &mut transport, 0, 8, false, false).unwrap();
    let q1 = VirtQueue::new(&mut hal, &mut transport, 1, 8, false, false).unwrap();
    assert!((0..4).all(|p| hal.page_in_use(p)));
    q0.release(&mut hal);
    assert!(!hal.page_in_use(0) && !hal.page_in_use(1));
    assert!(hal.page_in_use(2) && hal.page_in_use(3));
    q1.release(&mut hal);
    assert!((0..hal.page_count()).all(|p| !hal.page_in_use(p)));
}

#[test]
fn end_to_end() {
    let offered = FEATURE_INDIRECT_DESC | FEATURE_EVENT_IDX | FEATURE_VERSION_1;
    let requested = FEATURE_INDIRECT_DESC | FEATURE_VERSION_1;
    let mut transport =
        SimulatedTransport::new(DeviceType::Block, 1, offered, FEATURE_VERSION_1, &[16], Vec::new());
    let mut hal = pool();
    let negotiated = begin_init(&mut transport, requested).unwrap();
    assert_eq!(negotiated, FEATURE_INDIRECT_DESC | FEATURE_VERSION_1);
    let mut queue = VirtQueue::new(
        &mut hal,
        &mut transport,
        0,
        16,
        negotiated & FEATURE_INDIRECT_DESC != 0,
        negotiated & FEATURE_EVENT_IDX != 0,
    )
    .unwrap();
    assert!(queue.indirect());
    assert!(!queue.event_idx());
    finish_init(&mut transport);
    assert_eq!(transport.get_status() & STATUS_DRIVER_OK, STATUS_DRIVER_OK);
    assert_eq!(transport.get_status(), 1 | 2 | 4 | 8);
    let chain_id = queue.add(&mut hal, &[buffer(0x8000, 512)], &[]).unwrap();
    queue.notify(&mut transport);
    assert_eq!(transport.notification(0), Some(0));
    queue.device_complete(chain_id as u32, 512);
    assert_eq!(queue.poll_used(), Some((chain_id, 512)));
    assert_eq!(queue.pop_used(&mut hal, chain_id), Ok(512));
}

#[test]
fn descriptor_flag_bits() {
    let bits = |next, write, indirect| DescFlags { next, write, indirect }.bits();
    assert_eq!(bits(false, false, false), 0);
    assert_eq!(bits(true, false, false), 1);
    assert_eq!(bits(false, true, false), 2);
    assert_eq!(bits(false, false, true), 4);
    assert_eq!(bits(true, true, true), 7);
}

#[test]
fn table_sizes() {
    assert_eq!(DescriptorTable::new(0).err(), Some(Error::QueueSizeUnsupported));
    assert_eq!(DescriptorTable::new(0x8001).err(), Some(Error::QueueSizeUnsupported));
    assert_eq!(DescriptorTable::new(3).unwrap().num_free(), 3);
    assert_eq!(DescriptorTable::new(0x8000).unwrap().size(), 0x8000);
}

#[test]
fn table_chains() {
    let mut table = DescriptorTable::new(4).unwrap();
    let seg = |addr: u64, writable: bool| Segment {
        addr: PhysAddr(addr),
        origin: VirtAddr(addr as usize + 1),
        len: 32,
        device_writable: writable,
    };
    assert_eq!(table.alloc_chain(&vec![]), Err(Error::InvalidParam));
    let chain = vec![seg(0x10, false), seg(0x20, true)];
    assert_eq!(table.alloc_chain(&chain), Ok(0));
    assert!(table.is_outstanding(0));
    assert!(!table.is_outstanding(1));
    assert!(!table.is_outstanding(4));
    assert_eq!(table.alloc_chain(&vec![seg(0x30, false); 3]), Err(Error::QueueFull));
    assert_eq!(table.num_free(), 2);
    assert_eq!(table.free_chain(1).err(), Some(Error::WrongToken));
    assert_eq!(table.free_chain(9).err(), Some(Error::WrongToken));
    assert_eq!(table.free_chain(0), Ok(chain));
    assert_eq!(table.num_free(), 4);
    assert!(!table.is_outstanding(0));
    assert_eq!(table.free_chain(0).err(), Some(Error::WrongToken));
}

#[test]
fn shared_buffers_are_what_was_submitted() {
    let (mut hal, _transport, mut queue) = queue(8);
    let a = queue.add(&mut hal, &[buffer(0x1000, 8)], &[buffer(0x2000, 8)]).unwrap();
    let b = queue.add(&mut hal, &[buffer(0x1000, 8)], &[]).unwrap();
    assert_eq!(hal.shared_count(), 3);
    queue.device_complete(a as u32, 8);
    queue.pop_used(&mut hal, a).unwrap();
    // The buffer at 0x1000 was shared twice; one sharing is still out.
    assert_eq!(hal.shared_count(), 1);
    hal.unshare(PhysAddr(0x2000), buffer(0x2000, 8), virtio_drivers::hal::BufferDirection::DeviceToDriver);
    assert_eq!(hal.shared_count(), 1);
    queue.device_complete(b as u32, 0);
    queue.pop_used(&mut hal, b).unwrap();
    assert_eq!(hal.shared_count(), 0);
}

#[test]
fn from_regions_uses_the_regions_it_is_given() {
    let mut hal = pool();
    let mut transport = device(&[4, 16]);
    let driver_area = hal.allocate(1).unwrap();
    let device_area = hal.allocate(1).unwrap();
    let mut queue =
        VirtQueue::from_regions(&mut transport, 1, 16, true, false, driver_area, device_area);
    assert_eq!(queue.size(), 16);
    assert_eq!(queue.queue_index(), 1);
    assert!(queue.indirect());
    assert!(!queue.event_idx());
    assert_eq!(queue.available_desc(), 16);
    assert_eq!(queue.poll_used(), None);
    let config = queue.config();
    assert_eq!(config.descriptors, driver_area.paddr);
    assert_eq!(config.driver_area, PhysAddr(driver_area.paddr.0 + 256));
    assert_eq!(config.device_area, device_area.paddr);
    assert_eq!(transport.queue_config(1), Some(config));
    assert_eq!(transport.queue_config(0), None);
    assert_eq!(queue.add(&mut hal, &[buffer(0x1000, 8)], &[]), Ok(0));
    queue.release(&mut hal);
    assert!(!hal.page_in_use(0) && !hal.page_in_use(1));
    assert_eq!(
        driver_area,
        Dma { paddr: PhysAddr(0x100 * 4096), vaddr: VirtAddr(0x100 * 4096), pages: 1 }
    );
}

#[test]
fn direct_chains_are_not_marked_indirect() {
    let mut hal = pool();
    let mut transport = device(&[8]);
    // Also where indirect descriptors were agreed for the queue.
    let mut queue = VirtQueue::new(&mut hal, &mut transport, 0, 8, true, false).unwrap();
    queue.add(&mut hal, &[buffer(0x1000, 8), buffer(0x2000, 8)], &[buffer(0x3000, 8)]).unwrap();
    for i in 0..3u16 {
        assert!(!queue.descriptor(i).unwrap().flags.indirect);
    }
}
