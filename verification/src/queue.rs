//! The split virtqueue: a descriptor table, an available ring that the
//! driver writes and a used ring that the device writes.
//!
//! The queue is kept as plain values. Whatever the device puts into the used
//! ring, the driver-owned parts stay consistent: a completion is honoured only
//! if it names a chain that is really outstanding.
use vstd::multiset::Multiset;
use vstd::prelude::*;

use crate::hal::{
    pages_for, region_end, spec_pages_for, Buffer, BufferDirection, Dma, Hal, HalState, PhysAddr,
    Share,
};
use crate::queue::table::{DescriptorTable, Descriptor, Segment, TableView, MAX_QUEUE_SIZE};
use crate::transport::{QueueConfig, Transport, TransportState, STATUS_DRIVER_OK};
use crate::Error;

pub mod laws;
pub mod table;

verus! {

/// Bytes of one entry of the descriptor table.
pub const DESCRIPTOR_BYTES: usize = 16;

/// Bytes of one entry of the used ring.
pub const USED_ELEM_BYTES: usize = 8;

/// Bytes of one entry of the available ring.
pub const AVAIL_ELEM_BYTES: usize = 2;

/// Bytes that each ring holds besides its entries: flags, index and event word.
pub const RING_HEADER_BYTES: usize = 6;

/// One entry of the used ring: which chain the device finished, and how many
/// bytes it wrote into the chain's device-writable buffers.
#[derive(Clone, Copy, Debug, PartialEq, Eq, Structural)]
pub struct UsedElem {
    /// Head of the chain that is done.
    pub id: u32,
    /// Bytes the device wrote.
    pub len: u32,
}

/// The ring index that follows `idx`; indices wrap at 65536.
pub open spec fn next_index(idx: u16) -> u16 {
    if idx == u16::MAX {
        0
    } else {
        (idx + 1) as u16
    }
}

/// Whether `size` is one of 1, 2, 4, .., 32768.
pub open spec fn is_power_of_two(size: u16) -> bool {
    size != 0 && size & ((size - 1) as u16) == 0
}

/// Whether a queue of `size` entries can be set up on a device that takes up to `max`.
pub open spec fn size_supported(size: u16, max: u32) -> bool {
    is_power_of_two(size) && size <= max
}

/// Bytes of the descriptor table of a queue of `size` entries.
pub open spec fn descriptor_table_bytes(size: u16) -> nat {
    (DESCRIPTOR_BYTES * size) as nat
}

/// Bytes of the area the driver writes: descriptor table, then available ring.
pub open spec fn driver_area_bytes(size: u16) -> nat {
    (DESCRIPTOR_BYTES * size + RING_HEADER_BYTES + AVAIL_ELEM_BYTES * size) as nat
}

/// Bytes of the area the device writes: the used ring.
pub open spec fn device_area_bytes(size: u16) -> nat {
    (RING_HEADER_BYTES + USED_ELEM_BYTES * size) as nat
}

/// The sharing that stands behind a segment of a chain.
pub open spec fn share_of(segment: Segment) -> Share {
    Share {
        paddr: segment.addr,
        buffer: Buffer { vaddr: segment.origin, len: segment.len },
        direction: if segment.device_writable {
            BufferDirection::DeviceToDriver
        } else {
            BufferDirection::DriverToDevice
        },
    }
}

/// The sharings that stand behind the segments of a chain.
pub open spec fn shares(segments: Seq<Segment>) -> Multiset<Share> {
    segments.map_values(|s: Segment| share_of(s)).to_multiset()
}

/// `segments` describes the buffers of `inputs`, then those of `outputs`, one
/// segment each and in order; exactly the segments of `outputs` are device-writable.
pub open spec fn carries(segments: Seq<Segment>, inputs: Seq<Buffer>, outputs: Seq<Buffer>) -> bool {
    &&& segments.len() == inputs.len() + outputs.len()
    &&& forall|i: int|
        0 <= i < inputs.len() ==> {
            &&& (#[trigger] segments[i]).origin == inputs[i].vaddr
            &&& segments[i].len == inputs[i].len
            &&& !segments[i].device_writable
        }
    &&& forall|i: int|
        inputs.len() <= i < segments.len() ==> {
            &&& (#[trigger] segments[i]).origin == outputs[i - inputs.len()].vaddr
            &&& segments[i].len == outputs[i - inputs.len()].len
            &&& segments[i].device_writable
        }
}

/// The queue as mathematics.
#[verifier::ext_equal]
pub struct QueueView {
    /// The descriptor table with its free list and the chains that are lent.
    pub table: TableView,
    /// The available ring: heads of chains, in the order they were published.
    pub avail_ring: Seq<u16>,
    /// How many chains the driver has published, modulo 65536.
    pub avail_idx: u16,
    /// The used ring, as the device last wrote it.
    pub used_ring: Seq<UsedElem>,
    /// How many completions the device has published, modulo 65536.
    pub used_idx: u16,
    /// How many completions the driver has consumed, modulo 65536.
    pub last_used_idx: u16,
}

impl QueueView {
    /// Number of entries of the table and of each ring.
    pub open spec fn size(self) -> nat {
        self.table.size()
    }

    /// The ring slot that a ring index falls on.
    pub open spec fn slot(self, idx: u16) -> int {
        idx as int % self.size() as int
    }

    /// The device has published a completion that the driver has not consumed.
    pub open spec fn pending(self) -> bool {
        self.used_idx != self.last_used_idx
    }

    /// The used-ring entry that is next to be consumed.
    pub open spec fn next_used(self) -> UsedElem {
        self.used_ring[self.slot(self.last_used_idx)]
    }

    /// What a poll reports: the next unconsumed completion, if there is one.
    pub open spec fn next_completion(self) -> Option<(u16, u32)> {
        if self.pending() {
            Some((self.next_used().id as u16, self.next_used().len))
        } else {
            None
        }
    }

    /// The completion that is due names `token`, and a chain that starts at
    /// `token` is outstanding.
    pub open spec fn deliverable(self, token: u16) -> bool {
        &&& self.pending()
        &&& self.next_used().id == token
        &&& self.table.chains.dom().contains(token)
    }

    /// What holds of every queue between operations, whatever the device wrote.
    pub open spec fn inv(self) -> bool {
        &&& self.table.inv()
        &&& self.avail_ring.len() == self.size()
        &&& self.used_ring.len() == self.size()
        &&& self.size() <= u16::MAX
        &&& is_power_of_two(self.size() as u16)
    }

    /// The queue right after construction.
    pub open spec fn is_fresh(self, size: nat) -> bool {
        &&& self.table.is_fresh(size)
        &&& self.avail_idx == 0
        &&& self.used_idx == 0
        &&& self.last_used_idx == 0
    }

    /// `post` is this queue after a chain for `segments` was submitted at `head`.
    pub open spec fn add_step(self, post: QueueView, segments: Seq<Segment>, head: u16) -> bool {
        &&& self.table.alloc_step(post.table, segments, head)
        &&& post.avail_ring == self.avail_ring.update(self.slot(self.avail_idx), head)
        &&& post.avail_idx == next_index(self.avail_idx)
        &&& post.used_ring == self.used_ring
        &&& post.used_idx == self.used_idx
        &&& post.last_used_idx == self.last_used_idx
    }

    /// `post` is this queue after the device published that chain `id` is
    /// done with `len` bytes written.
    pub open spec fn complete_step(self, post: QueueView, id: u32, len: u32) -> bool {
        post == (QueueView {
            used_ring: self.used_ring.update(self.slot(self.used_idx), UsedElem { id, len }),
            used_idx: next_index(self.used_idx),
            ..self
        })
    }

    /// `post` is this queue after the completion of chain `token` was consumed
    /// and the chain reclaimed.
    pub open spec fn pop_step(self, post: QueueView, token: u16) -> bool {
        &&& self.deliverable(token)
        &&& self.table.free_step(post.table, token)
        &&& post.last_used_idx == next_index(self.last_used_idx)
        &&& post.avail_ring == self.avail_ring
        &&& post.avail_idx == self.avail_idx
        &&& post.used_ring == self.used_ring
        &&& post.used_idx == self.used_idx
    }
}

/// The two regions can hold a queue of `size` entries: each has the pages
/// its area needs, starts on a page and ends inside the address space, and
/// they are two regions.
pub open spec fn regions_fit(size: u16, driver_area: Dma, device_area: Dma) -> bool {
    &&& driver_area.pages == spec_pages_for(driver_area_bytes(size))
    &&& device_area.pages == spec_pages_for(device_area_bytes(size))
    &&& driver_area.paddr != device_area.paddr
    &&& driver_area.paddr.0 % (crate::hal::PAGE_SIZE as u64) == 0
    &&& device_area.paddr.0 % (crate::hal::PAGE_SIZE as u64) == 0
    &&& region_end(driver_area.paddr, driver_area.pages as nat) <= u64::MAX
    &&& region_end(device_area.paddr, device_area.pages as nat) <= u64::MAX
}

/// What a queue is set up with and keeps for its whole life.
pub struct QueueIdentity {
    /// The index of the queue on its device.
    pub queue_index: u16,
    /// Number of entries of the table and of each ring.
    pub size: u16,
    /// Whether indirect descriptors were agreed for the queue.
    pub indirect: bool,
    /// Whether notification suppression by event index was agreed for the queue.
    pub event_idx: bool,
    /// The region that holds the descriptor table and the available ring.
    pub driver_area: Dma,
    /// The region that holds the used ring.
    pub device_area: Dma,
}

impl QueueIdentity {
    /// Where the device finds the three parts of the queue.
    pub open spec fn config(self) -> QueueConfig {
        QueueConfig {
            size: self.size as u32,
            descriptors: self.driver_area.paddr,
            driver_area: PhysAddr(
                (self.driver_area.paddr.0 + descriptor_table_bytes(self.size)) as u64,
            ),
            device_area: self.device_area.paddr,
        }
    }

    /// The queue's two regions are out on loan from `hal`.
    pub open spec fn backed_by(self, hal: HalState) -> bool {
        &&& hal.allocated.contains_pair(self.driver_area.paddr, self.driver_area.pages as nat)
        &&& hal.allocated.contains_pair(self.device_area.paddr, self.device_area.pages as nat)
    }
}

/// A split virtqueue.
pub struct VirtQueue {
    queue_index: u16,
    size: u16,
    table: DescriptorTable,
    avail_ring: Vec<u16>,
    avail_idx: u16,
    used_ring: Vec<UsedElem>,
    used_idx: u16,
    last_used_idx: u16,
    indirect: bool,
    event_idx: bool,
    driver_area: Dma,
    device_area: Dma,
}

impl View for VirtQueue {
    type V = QueueView;

    closed spec fn view(&self) -> QueueView {
        QueueView {
            table: self.table@,
            avail_ring: self.avail_ring@,
            avail_idx: self.avail_idx,
            used_ring: self.used_ring@,
            used_idx: self.used_idx,
            last_used_idx: self.last_used_idx,
        }
    }
}

/// Whether `size` is one of 1, 2, 4, .., 32768.
pub fn power_of_two(size: u16) -> (b: bool)
    ensures
        b == is_power_of_two(size),
        b ==> 1 <= size <= MAX_QUEUE_SIZE,
{
    assert(size != 0 && size & ((size - 1) as u16) == 0 ==> 1 <= size <= 0x8000) by (bit_vector);
    size != 0 && size & (size - 1) == 0
}

/// Adding a segment to a chain adds its sharing to the chain's sharings.
proof fn lemma_shares_push(segments: Seq<Segment>, segment: Segment)
    ensures
        shares(segments.push(segment)) == shares(segments).insert(share_of(segment)),
{
    let f = |s: Segment| share_of(s);
    assert(segments.push(segment).map_values(f) =~= segments.map_values(f).push(f(segment)));
    segments.map_values(f).to_multiset_ensures();
}

/// A chain without segments has no sharings.
proof fn lemma_shares_empty()
    ensures
        shares(Seq::<Segment>::empty()).len() == 0,
        forall|m: Multiset<Share>| #[trigger] m.add(shares(Seq::<Segment>::empty())) == m,
        forall|m: Multiset<Share>| #[trigger] m.sub(shares(Seq::<Segment>::empty())) == m,
{
    let f = |s: Segment| share_of(s);
    assert(Seq::<Segment>::empty().map_values(f) =~= Seq::<Share>::empty());
    Seq::<Share>::empty().to_multiset_ensures();
}

/// Shares each buffer with the device and records it as a segment.
fn share_all<H: Hal>(
    hal: &mut H,
    buffers: &[Buffer],
    device_writable: bool,
    segments: &mut Vec<Segment>,
    Ghost(base): Ghost<Multiset<Share>>,
)
    requires
        old(hal).wf(),
        old(hal).view().shared == base.add(shares(old(segments)@)),
    ensures
        final(hal).wf(),
        final(hal).view() == (HalState {
            shared: base.add(shares(final(segments)@)),
            ..old(hal).view()
        }),
        final(segments)@.len() == old(segments)@.len() + buffers@.len(),
        final(segments)@.subrange(0, old(segments)@.len() as int) == old(segments)@,
        forall|i: int|
            0 <= i < buffers@.len() ==> {
                &&& (#[trigger] final(segments)@[old(segments)@.len() + i]).origin
                    == buffers@[i].vaddr
                &&& final(segments)@[old(segments)@.len() + i].len == buffers@[i].len
                &&& final(segments)@[old(segments)@.len() + i].device_writable == device_writable
            },
{
    let direction = if device_writable {
        BufferDirection::DeviceToDriver
    } else {
        BufferDirection::DriverToDevice
    };
    let ghost start = segments@.len() as int;
    let mut i: usize = 0;
    while i < buffers.len()
        invariant
            hal.wf(),
            0 <= i <= buffers@.len(),
            start == old(segments)@.len(),
            segments@.len() == start + i,
            segments@.subrange(0, start) == old(segments)@,
            hal.view() == (HalState {
                shared: base.add(shares(segments@)),
                ..old(hal).view()
            }),
            direction == (if device_writable {
                BufferDirection::DeviceToDriver
            } else {
                BufferDirection::DriverToDevice
            }),
            forall|j: int|
                0 <= j < i ==> {
                    &&& (#[trigger] segments@[start + j]).origin == buffers@[j].vaddr
                    &&& segments@[start + j].len == buffers@[j].len
                    &&& segments@[start + j].device_writable == device_writable
                },
        decreases buffers@.len() - i,
    {
        let buffer = buffers[i];
        let paddr = hal.share(buffer, direction);
        let segment = Segment { addr: paddr, origin: buffer.vaddr, len: buffer.len, device_writable };
        proof {
            lemma_shares_push(segments@, segment);
            assert(base.add(shares(segments@)).insert(share_of(segment)) =~= base.add(
                shares(segments@).insert(share_of(segment)),
            ));
        }
        segments.push(segment);
        i = i + 1;
    }
}

impl VirtQueue {
    /// The representation is consistent.
    pub closed spec fn wf(&self) -> bool {
        &&& self.table.wf()
        &&& is_power_of_two(self.size)
        &&& self.table@.size() == self.size
        &&& self.avail_ring@.len() == self.size
        &&& self.used_ring@.len() == self.size
        &&& regions_fit(self.size, self.driver_area, self.device_area)
    }

    /// What the queue was set up with.
    pub closed spec fn identity(&self) -> QueueIdentity {
        QueueIdentity {
            queue_index: self.queue_index,
            size: self.size,
            indirect: self.indirect,
            event_idx: self.event_idx,
            driver_area: self.driver_area,
            device_area: self.device_area,
        }
    }

    /// A well-formed queue satisfies the public invariant of its view, and
    /// its size is the size it was set up with.
    pub proof fn lemma_inv(&self)
        requires
            self.wf(),
        ensures
            self@.inv(),
            self@.size() == self.identity().size,
            regions_fit(
                self.identity().size,
                self.identity().driver_area,
                self.identity().device_area,
            ),
            self.identity().config().aligned(),
    {
        self.table.lemma_inv();
        let size = self.size;
        assert(size != 0 && size & ((size - 1) as u16) == 0 ==> 1 <= size <= 0x8000)
            by (bit_vector);
        let base = self.driver_area.paddr.0 as int;
        let table = descriptor_table_bytes(size) as int;
        // The table ends inside the region, and the region inside the address space.
        assert(table <= driver_area_bytes(size) <= self.driver_area.pages * crate::hal::PAGE_SIZE);
        assert(base + table <= u64::MAX);
        let driver = self.driver_area.paddr.0;
        let device = self.device_area.paddr.0;
        assert(driver % 4096 == 0 ==> driver % 16 == 0 && (driver + 16 * size) % 2 == 0)
            by (bit_vector);
        assert(device % 4096 == 0 ==> device % 4 == 0) by (bit_vector);
    }

    /// Sets up the queue at `queue_index` with `size` entries: takes the
    /// memory for the table and the rings from the HAL, tells the device
    /// where they are, and starts with every descriptor free.
    ///
    /// The descriptor table and the available ring share one region, the
    /// used ring has its own; both start on a page, which gives each part
    /// the alignment the ring layout asks for.
    ///
    /// Fails with `QueueSizeUnsupported` when `size` is no power of two or
    /// more than the device takes for this queue, and with `OutOfMemory` when
    /// the HAL cannot provide the memory. A failure leaves HAL and device as
    /// they were.
    pub fn new<H: Hal, T: Transport>(
        hal: &mut H,
        transport: &mut T,
        queue_index: u16,
        size: u16,
        use_indirect: bool,
        use_event_idx: bool,
    ) -> (r: Result<Self, Error>)
        requires
            old(hal).wf(),
            old(transport).wf(),
            old(transport).view().status & STATUS_DRIVER_OK == 0,
        ensures
            final(hal).wf(),
            final(transport).wf(),
            match r {
                Ok(q) => {
                    &&& size_supported(size, old(transport).view().max_size(queue_index))
                    &&& q.wf()
                    &&& q@.is_fresh(size as nat)
                    &&& q.identity().queue_index == queue_index
                    &&& q.identity().size == size
                    &&& q.identity().indirect == use_indirect
                    &&& q.identity().event_idx == use_event_idx
                    &&& !old(hal).view().allocated.dom().contains(q.identity().driver_area.paddr)
                    &&& !old(hal).view().allocated.dom().contains(q.identity().device_area.paddr)
                    &&& q.identity().backed_by(final(hal).view())
                    &&& q.identity().config().aligned()
                    &&& final(hal).view() == (HalState {
                        allocated: old(hal).view().allocated.insert(
                            q.identity().driver_area.paddr,
                            q.identity().driver_area.pages as nat,
                        ).insert(
                            q.identity().device_area.paddr,
                            q.identity().device_area.pages as nat,
                        ),
                        ..old(hal).view()
                    })
                    &&& final(transport).view() == (TransportState {
                        queues: old(transport).view().queues.insert(
                            queue_index,
                            q.identity().config(),
                        ),
                        ..old(transport).view()
                    })
                },
                Err(e) => {
                    &&& final(hal).view() == old(hal).view()
                    &&& final(transport).view() == old(transport).view()
                    &&& e == Error::QueueSizeUnsupported <==> !size_supported(
                        size,
                        old(transport).view().max_size(queue_index),
                    )
                    &&& e == Error::QueueSizeUnsupported || e == Error::OutOfMemory
                },
            },
    {
        let max = transport.max_queue_size(queue_index);
        if !power_of_two(size) || size as u32 > max {
            return Err(Error::QueueSizeUnsupported);
        }
        let table_bytes = DESCRIPTOR_BYTES * (size as usize);
        let driver_pages = pages_for(table_bytes + RING_HEADER_BYTES + AVAIL_ELEM_BYTES * (size as usize));
        let device_pages = pages_for(RING_HEADER_BYTES + USED_ELEM_BYTES * (size as usize));
        let driver_area = match hal.allocate(driver_pages) {
            Ok(dma) => dma,
            Err(_) => {
                return Err(Error::OutOfMemory);
            },
        };
        let device_area = match hal.allocate(device_pages) {
            Ok(dma) => dma,
            Err(_) => {
                hal.deallocate(driver_area);
                return Err(Error::OutOfMemory);
            },
        };
        Ok(
            Self::from_regions(
                transport,
                queue_index,
                size,
                use_indirect,
                use_event_idx,
                driver_area,
                device_area,
            ),
        )
    }

    /// Sets up the queue at `queue_index` with `size` entries in two regions
    /// that the caller has obtained: tells the device where the three parts
    /// lie and starts with every descriptor free.
    ///
    /// The descriptor table lies at the start of `driver_area` and the
    /// available ring behind it; the used ring lies at the start of
    /// `device_area`.
    pub fn from_regions<T: Transport>(
        transport: &mut T,
        queue_index: u16,
        size: u16,
        use_indirect: bool,
        use_event_idx: bool,
        driver_area: Dma,
        device_area: Dma,
    ) -> (q: Self)
        requires
            old(transport).wf(),
            old(transport).view().status & STATUS_DRIVER_OK == 0,
            size_supported(size, old(transport).view().max_size(queue_index)),
            regions_fit(size, driver_area, device_area),
        ensures
            final(transport).wf(),
            q.wf(),
            q@.is_fresh(size as nat),
            q.identity() == (QueueIdentity {
                queue_index,
                size,
                indirect: use_indirect,
                event_idx: use_event_idx,
                driver_area,
                device_area,
            }),
            q.identity().config().aligned(),
            final(transport).view() == (TransportState {
                queues: old(transport).view().queues.insert(queue_index, q.identity().config()),
                ..old(transport).view()
            }),
    {
        assert(size != 0 && size & ((size - 1) as u16) == 0 ==> 1 <= size <= 0x8000)
            by (bit_vector);
        let table_bytes = DESCRIPTOR_BYTES * (size as usize);
        assert(table_bytes <= driver_area_bytes(size) <= driver_area.pages * crate::hal::PAGE_SIZE);
        let avail_addr = PhysAddr(driver_area.paddr.0 + table_bytes as u64);
        let programmed = transport.queue_set(
            queue_index,
            size as u32,
            driver_area.paddr,
            avail_addr,
            device_area.paddr,
        );
        assert(programmed is Ok);
        let table = match DescriptorTable::new(size) {
            Ok(table) => table,
            Err(_) => unreached(),
        };
        let mut avail_ring: Vec<u16> = Vec::new();
        let mut used_ring: Vec<UsedElem> = Vec::new();
        let mut i: u16 = 0;
        while i < size
            invariant
                i <= size,
                avail_ring@.len() == i,
                used_ring@.len() == i,
            decreases size - i,
        {
            avail_ring.push(0);
            used_ring.push(UsedElem { id: 0, len: 0 });
            i = i + 1;
        }
        let q = VirtQueue {
            queue_index,
            size,
            table,
            avail_ring,
            avail_idx: 0,
            used_ring,
            used_idx: 0,
            last_used_idx: 0,
            indirect: use_indirect,
            event_idx: use_event_idx,
            driver_area,
            device_area,
        };
        proof {
            q.lemma_inv();
        }
        q
    }

    /// Number of entries of the queue.
    pub fn size(&self) -> (n: u16)
        ensures
            n == self.identity().size,
    {
        self.size
    }

    /// The index of the queue on its device.
    pub fn queue_index(&self) -> (n: u16)
        ensures
            n == self.identity().queue_index,
    {
        self.queue_index
    }

    /// Whether the queue was set up to use indirect descriptors.
    pub fn indirect(&self) -> (b: bool)
        ensures
            b == self.identity().indirect,
    {
        self.indirect
    }

    /// Whether the queue was set up to suppress notifications by event index.
    pub fn event_idx(&self) -> (b: bool)
        ensures
            b == self.identity().event_idx,
    {
        self.event_idx
    }

    /// Where the device finds the three parts of the queue.
    pub fn config(&self) -> (c: QueueConfig)
        requires
            self.wf(),
        ensures
            c == self.identity().config(),
    {
        let table_bytes = DESCRIPTOR_BYTES * (self.size as usize);
        proof {
            self.lemma_inv();
        }
        QueueConfig {
            size: self.size as u32,
            descriptors: self.driver_area.paddr,
            driver_area: PhysAddr(self.driver_area.paddr.0 + table_bytes as u64),
            device_area: self.device_area.paddr,
        }
    }

    /// Number of free descriptors: the table size less what is lent to the device.
    pub fn available_desc(&self) -> (n: u16)
        requires
            self.wf(),
        ensures
            n == self@.table.free.len(),
            n + self@.table.lent() == self@.size(),
    {
        self.table.num_free()
    }

    /// The entry of the descriptor table at `index`, as the device reads it.
    pub fn descriptor(&self, index: u16) -> (d: Option<Descriptor>)
        requires
            self.wf(),
        ensures
            d == if index < self@.size() {
                Some(self@.table.slots[index as int])
            } else {
                None
            },
    {
        self.table.descriptor(index)
    }

    /// How many chains the driver has published, modulo 65536.
    pub fn avail_idx(&self) -> (idx: u16)
        ensures
            idx == self@.avail_idx,
    {
        self.avail_idx
    }

    /// The head that the available ring holds for ring index `idx`.
    pub fn avail_entry(&self, idx: u16) -> (head: u16)
        requires
            self.wf(),
        ensures
            head == self@.avail_ring[self@.slot(idx)],
    {
        self.avail_ring[(idx % self.size) as usize]
    }

    /// Submits one request: shares every buffer with the device through the
    /// HAL, builds a chain of one descriptor per buffer, the buffers of
    /// `inputs` first and then those of `outputs`, which alone the device may
    /// write, puts the chain's head into the next slot of the available ring
    /// and advances the available index. Returns the head of the chain.
    ///
    /// Fails with `InvalidParam` when there is no buffer at all, and with
    /// `QueueFull` when there are more buffers than free descriptors. A
    /// failure changes neither the queue nor the HAL.
    pub fn add<H: Hal>(&mut self, hal: &mut H, inputs: &[Buffer], outputs: &[Buffer]) -> (r: Result<
        u16,
        Error,
    >)
        requires
            old(self).wf(),
            old(hal).wf(),
        ensures
            final(self).wf(),
            final(hal).wf(),
            final(self).identity() == old(self).identity(),
            match r {
                Ok(head) => {
                    let segments = final(self)@.table.segments(head);
                    &&& old(self)@.add_step(final(self)@, segments, head)
                    &&& carries(segments, inputs@, outputs@)
                    &&& final(hal).view() == (HalState {
                        shared: old(hal).view().shared.add(shares(segments)),
                        ..old(hal).view()
                    })
                },
                Err(e) => {
                    &&& *final(self) == *old(self)
                    &&& final(hal).view() == old(hal).view()
                    &&& e == Error::InvalidParam <==> inputs@.len() + outputs@.len() == 0
                    &&& e == Error::QueueFull <==> inputs@.len() + outputs@.len() > old(
                        self,
                    )@.table.free.len()
                    &&& e == Error::InvalidParam || e == Error::QueueFull
                },
            },
    {
        let free = self.table.num_free() as usize;
        if inputs.len() == 0 && outputs.len() == 0 {
            return Err(Error::InvalidParam);
        }
        if inputs.len() > free || outputs.len() > free - inputs.len() {
            return Err(Error::QueueFull);
        }
        let mut segments: Vec<Segment> = Vec::new();
        let ghost base = hal.view().shared;
        proof {
            lemma_shares_empty();
        }
        share_all(hal, inputs, false, &mut segments, Ghost(base));
        let ghost mid = segments@;
        share_all(hal, outputs, true, &mut segments, Ghost(base));
        assert(carries(segments@, inputs@, outputs@)) by {
            assert forall|i: int| 0 <= i < inputs@.len() implies {
                &&& (#[trigger] segments@[i]).origin == inputs@[i].vaddr
                &&& segments@[i].len == inputs@[i].len
                &&& !segments@[i].device_writable
            } by {
                assert(mid[0 + i].origin == inputs@[i].vaddr);
            }
            assert forall|i: int| inputs@.len() <= i < segments@.len() implies {
                &&& (#[trigger] segments@[i]).origin == outputs@[i - inputs@.len()].vaddr
                &&& segments@[i].len == outputs@[i - inputs@.len()].len
                &&& segments@[i].device_writable
            } by {
                let j = i - inputs@.len();
                assert(segments@[mid.len() + j].origin == outputs@[j].vaddr);
            }
        }
        let head = match self.table.alloc_chain(&segments) {
            Ok(head) => head,
            Err(e) => {
                return Err(e);
            },
        };
        let slot = (self.avail_idx % self.size) as usize;
        self.avail_ring.set(slot, head);
        self.avail_idx = if self.avail_idx == u16::MAX {
            0
        } else {
            self.avail_idx + 1
        };
        Ok(head)
    }

    /// Tells the device that the queue has new available entries.
    pub fn notify<T: Transport>(&self, transport: &mut T)
        requires
            old(transport).wf(),
        ensures
            final(transport).wf(),
            final(transport).view() == (TransportState {
                notifications: old(transport).view().notifications.push(
                    self.identity().queue_index,
                ),
                ..old(transport).view()
            }),
    {
        transport.notify(self.queue_index);
    }

    /// Whether the device has published a completion that is not yet consumed.
    pub fn can_pop(&self) -> (b: bool)
        ensures
            b == self@.pending(),
    {
        self.used_idx != self.last_used_idx
    }

    /// Looks at the used ring without consuming anything: the chain id and
    /// the byte count of the next unconsumed completion, or `None` if the
    /// device has published none since the last one was consumed.
    pub fn poll_used(&self) -> (r: Option<(u16, u32)>)
        requires
            self.wf(),
        ensures
            r == self@.next_completion(),
    {
        if self.used_idx == self.last_used_idx {
            None
        } else {
            let elem = self.used_ring[(self.last_used_idx % self.size) as usize];
            Some((#[verifier::truncate] (elem.id as u16), elem.len))
        }
    }

    /// Consumes the completion of the chain `token`: returns the chain's
    /// descriptors to the free list, withdraws the sharing of each of its
    /// buffers, and reports the byte count the device recorded.
    ///
    /// Fails with `WrongToken`, changing nothing, unless the next unconsumed
    /// completion names `token` and a chain that starts at `token` is
    /// outstanding.
    pub fn pop_used<H: Hal>(&mut self, hal: &mut H, token: u16) -> (r: Result<u32, Error>)
        requires
            old(self).wf(),
            old(hal).wf(),
        ensures
            final(self).wf(),
            final(hal).wf(),
            final(self).identity() == old(self).identity(),
            match r {
                Ok(len) => {
                    &&& old(self)@.pop_step(final(self)@, token)
                    &&& len == old(self)@.next_used().len
                    &&& final(hal).view() == (HalState {
                        shared: old(hal).view().shared.sub(
                            shares(old(self)@.table.segments(token)),
                        ),
                        ..old(hal).view()
                    })
                },
                Err(e) => {
                    &&& e == Error::WrongToken
                    &&& !old(self)@.deliverable(token)
                    &&& *final(self) == *old(self)
                    &&& final(hal).view() == old(hal).view()
                },
            },
    {
        if self.used_idx == self.last_used_idx {
            return Err(Error::WrongToken);
        }
        let elem = self.used_ring[(self.last_used_idx % self.size) as usize];
        if elem.id != token as u32 {
            return Err(Error::WrongToken);
        }
        let segments = match self.table.free_chain(token) {
            Ok(segments) => segments,
            Err(e) => {
                return Err(e);
            },
        };
        self.last_used_idx = if self.last_used_idx == u16::MAX {
            0
        } else {
            self.last_used_idx + 1
        };
        let ghost base = hal.view().shared;
        proof {
            lemma_shares_empty();
            assert(segments@.subrange(0, 0) =~= Seq::<Segment>::empty());
        }
        let mut i: usize = 0;
        while i < segments.len()
            invariant
                hal.wf(),
                0 <= i <= segments@.len(),
                hal.view() == (HalState {
                    shared: base.sub(shares(segments@.subrange(0, i as int))),
                    ..old(hal).view()
                }),
            decreases segments@.len() - i,
        {
            let segment = segments[i];
            let direction = if segment.device_writable {
                BufferDirection::DeviceToDriver
            } else {
                BufferDirection::DriverToDevice
            };
            proof {
                let done = segments@.subrange(0, i as int);
                lemma_shares_push(done, segment);
                assert(segments@.subrange(0, i + 1) =~= done.push(segment));
                assert(base.sub(shares(done)).remove(share_of(segment)) =~= base.sub(
                    shares(done).insert(share_of(segment)),
                ));
            }
            hal.unshare(segment.addr, Buffer { vaddr: segment.origin, len: segment.len }, direction);
            i = i + 1;
        }
        assert(segments@.subrange(0, segments@.len() as int) =~= segments@);
        Ok(elem.len)
    }

    /// The device's side: writes one entry of the used ring, at the slot that
    /// ring index `idx` falls on. Nothing the driver owns changes.
    pub fn device_write_used(&mut self, idx: u16, elem: UsedElem)
        requires
            old(self).wf(),
        ensures
            final(self).wf(),
            final(self).identity() == old(self).identity(),
            final(self)@ == (QueueView {
                used_ring: old(self)@.used_ring.update(old(self)@.slot(idx), elem),
                ..old(self)@
            }),
    {
        let slot = (idx % self.size) as usize;
        self.used_ring.set(slot, elem);
    }

    /// The device's side: publishes a new used index. Nothing the driver owns changes.
    pub fn device_set_used_idx(&mut self, idx: u16)
        requires
            old(self).wf(),
        ensures
            final(self).wf(),
            final(self).identity() == old(self).identity(),
            final(self)@ == (QueueView { used_idx: idx, ..old(self)@ }),
    {
        self.used_idx = idx;
    }

    /// The device's side: reports that chain `id` is done with `len` bytes
    /// written, by writing the next entry of the used ring and advancing the
    /// used index.
    pub fn device_complete(&mut self, id: u32, len: u32)
        requires
            old(self).wf(),
        ensures
            final(self).wf(),
            final(self).identity() == old(self).identity(),
            old(self)@.complete_step(final(self)@, id, len),
    {
        let idx = self.used_idx;
        self.device_write_used(idx, UsedElem { id, len });
        self.device_set_used_idx(
            if idx == u16::MAX {
                0
            } else {
                idx + 1
            },
        );
    }

    /// Tears the queue down: gives its two regions back to the HAL they came from.
    pub fn release<H: Hal>(self, hal: &mut H)
        requires
            self.wf(),
            old(hal).wf(),
            self.identity().backed_by(old(hal).view()),
        ensures
            final(hal).wf(),
            final(hal).view() == (HalState {
                allocated: old(hal).view().allocated.remove(
                    self.identity().driver_area.paddr,
                ).remove(self.identity().device_area.paddr),
                ..old(hal).view()
            }),
    {
        hal.deallocate(self.driver_area);
        hal.deallocate(self.device_area);
    }
}

} // verus!
