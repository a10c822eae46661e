//! The descriptor table: an arena of fixed-size slots with a free list
//! threaded through the `next` field.
//!
//! The table is the driver's own copy of what the device reads. The device
//! never writes it, so nothing a device does can break the invariants here.
use vstd::prelude::*;

use crate::hal::{PhysAddr, VirtAddr};
use crate::Error;

verus! {

/// Largest table the split-ring layout allows.
pub const MAX_QUEUE_SIZE: u16 = 0x8000;

/// The flag set of one descriptor.
#[derive(Clone, Copy, Debug, PartialEq, Eq, Structural)]
pub struct DescFlags {
    /// Another descriptor follows in the chain; `next` is valid.
    pub next: bool,
    /// The device writes this buffer (otherwise it only reads it).
    pub write: bool,
    /// The buffer holds a table of indirect descriptors.
    pub indirect: bool,
}

impl DescFlags {
    /// The flag word as the wire protocol lays it out.
    pub open spec fn spec_bits(self) -> u16 {
        ((if self.next {
            1int
        } else {
            0int
        }) + (if self.write {
            2int
        } else {
            0int
        }) + (if self.indirect {
            4int
        } else {
            0int
        })) as u16
    }

    /// The flag word as the wire protocol lays it out: has-next is bit 0,
    /// device-writable bit 1, indirect bit 2.
    pub fn bits(&self) -> (b: u16)
        ensures
            b == self.spec_bits(),
    {
        let mut b: u16 = 0;
        if self.next {
            b = b + 1;
        }
        if self.write {
            b = b + 2;
        }
        if self.indirect {
            b = b + 4;
        }
        b
    }
}

/// One entry of the descriptor table.
#[derive(Clone, Copy, Debug, PartialEq, Eq, Structural)]
pub struct Descriptor {
    /// Device-physical address of the buffer.
    pub addr: PhysAddr,
    /// Length of the buffer in bytes.
    pub len: u32,
    /// Whether the chain goes on, and who writes the buffer.
    pub flags: DescFlags,
    /// Index of the next descriptor of the chain, valid only where `flags.next` is set.
    pub next: u16,
}

/// One buffer of a request, as the table records it.
#[derive(Clone, Copy, Debug, PartialEq, Eq, Structural)]
pub struct Segment {
    /// Where the device finds the buffer.
    pub addr: PhysAddr,
    /// Where the driver finds it.
    pub origin: VirtAddr,
    /// Its length in bytes.
    pub len: u32,
    /// Whether the device writes it (otherwise it only reads it).
    pub device_writable: bool,
}

/// The buffer that a table entry describes.
pub open spec fn segment_of(d: Descriptor, origin: VirtAddr) -> Segment {
    Segment { addr: d.addr, origin, len: d.len, device_writable: d.flags.write }
}

/// The table as mathematics: the entries, the free list in order, and the
/// chains that are lent to the device.
#[verifier::ext_equal]
pub struct TableView {
    /// The entries, as the device reads them.
    pub slots: Seq<Descriptor>,
    /// For each entry, the driver-side address of the buffer it describes.
    pub origins: Seq<VirtAddr>,
    /// The free list, head first.
    pub free: Seq<u16>,
    /// The outstanding chains: head index to the indices of the chain, in chain order.
    pub chains: Map<u16, Seq<u16>>,
}

impl TableView {
    /// Number of entries of the table.
    pub open spec fn size(self) -> nat {
        self.slots.len()
    }

    /// The length of the chain that starts at `head`, or 0 if none does.
    pub open spec fn chain_len(self, head: int) -> nat {
        if 0 <= head <= u16::MAX && self.chains.dom().contains(head as u16) {
            self.chains[head as u16].len()
        } else {
            0
        }
    }

    /// Descriptors in chains whose head index is below `bound`.
    pub open spec fn lent_below(self, bound: nat) -> nat
        decreases bound,
    {
        if bound == 0 {
            0
        } else {
            self.lent_below((bound - 1) as nat) + self.chain_len(bound - 1)
        }
    }

    /// Descriptors currently lent to the device, over all outstanding chains.
    pub open spec fn lent(self) -> nat {
        self.lent_below(self.size())
    }

    /// The buffers of the chain that starts at `head`, in chain order.
    pub open spec fn segments(self, head: u16) -> Seq<Segment> {
        let chain = self.chains[head];
        Seq::new(
            chain.len(),
            |i: int| segment_of(self.slots[chain[i] as int], self.origins[chain[i] as int]),
        )
    }

    /// `chain` is laid out in the table as one direct chain: each entry but
    /// the last has has-next set and points at its successor, the last has it
    /// clear, and none is marked indirect.
    pub open spec fn linked(self, chain: Seq<u16>) -> bool {
        &&& forall|i: int|
            0 <= i < chain.len() ==> (#[trigger] chain[i]) < self.size()
                && self.slots[chain[i] as int].flags.next == (i + 1 < chain.len())
                && !self.slots[chain[i] as int].flags.indirect
        &&& forall|i: int, j: int|
            #![trigger chain[i], chain[j]]
            0 <= i && j == i + 1 && j < chain.len() ==> self.slots[chain[i] as int].next
                == chain[j]
    }

    /// The free list is threaded through `next`.
    pub open spec fn free_threaded(self) -> bool {
        &&& forall|i: int| 0 <= i < self.free.len() ==> (#[trigger] self.free[i]) < self.size()
        &&& forall|i: int, j: int|
            #![trigger self.free[i], self.free[j]]
            0 <= i && j == i + 1 && j < self.free.len() ==> self.slots[self.free[i] as int].next
                == self.free[j]
    }

    /// What holds of every table between operations.
    pub open spec fn inv(self) -> bool {
        &&& 1 <= self.size() <= MAX_QUEUE_SIZE
        &&& self.origins.len() == self.size()
        &&& self.free.no_duplicates()
        &&& self.free_threaded()
        &&& forall|h: u16| #[trigger]
            self.chains.dom().contains(h) ==> {
                &&& h < self.size()
                &&& self.chains[h].len() >= 1
                &&& self.chains[h][0] == h
                &&& self.chains[h].no_duplicates()
                &&& self.linked(self.chains[h])
            }
        &&& forall|h: u16, i: int, j: int|
            #![trigger self.chains[h][i], self.free[j]]
            self.chains.dom().contains(h) && 0 <= i < self.chains[h].len() && 0 <= j
                < self.free.len() ==> self.chains[h][i] != self.free[j]
        &&& forall|g: u16, h: u16, i: int, j: int|
            #![trigger self.chains[g][i], self.chains[h][j]]
            self.chains.dom().contains(g) && self.chains.dom().contains(h) && g != h && 0 <= i
                < self.chains[g].len() && 0 <= j < self.chains[h].len() ==> self.chains[g][i]
                != self.chains[h][j]
        &&& self.free.len() + self.lent() == self.size()
    }

    /// `post` is this table after `segments` were linked into a chain at `head`:
    /// the chain takes the first descriptors of the free list, in order, holds
    /// the segments in order and is laid out as one direct chain; no other
    /// chain is touched.
    pub open spec fn alloc_step(self, post: TableView, segments: Seq<Segment>, head: u16) -> bool {
        let k = segments.len() as int;
        &&& 1 <= k <= self.free.len()
        &&& head == self.free[0]
        &&& post.free == self.free.subrange(k, self.free.len() as int)
        &&& post.chains == self.chains.insert(head, self.free.subrange(0, k))
        &&& post.segments(head) == segments
        &&& post.linked(post.chains[head])
        &&& post.size() == self.size()
        &&& forall|h: u16| #[trigger]
            self.chains.dom().contains(h) ==> post.segments(h) == self.segments(h)
    }

    /// `post` is this table after the chain at `head` went back to the front
    /// of the free list; no other chain is touched.
    pub open spec fn free_step(self, post: TableView, head: u16) -> bool {
        &&& self.chains.dom().contains(head)
        &&& post.free == self.chains[head] + self.free
        &&& post.chains == self.chains.remove(head)
        &&& post.size() == self.size()
        &&& forall|h: u16| #[trigger]
            post.chains.dom().contains(h) ==> post.segments(h) == self.segments(h)
    }

    /// The table right after construction: nothing lent, the free list `0, 1, .., size - 1`.
    pub open spec fn is_fresh(self, size: nat) -> bool {
        &&& self.size() == size
        &&& self.free == Seq::new(size, |i: int| i as u16)
        &&& self.chains == Map::<u16, Seq<u16>>::empty()
    }
}

/// Who holds a slot, and at which position of its list.
enum SlotOwner {
    Free { pos: int },
    Lent { head: u16, pos: int },
}

/// Registering a chain at a head that had none adds its length to the count below every larger bound.
pub(crate) proof fn lemma_lent_insert(v: TableView, w: TableView, head: u16, chain: Seq<u16>, bound: nat)
    requires
        !v.chains.dom().contains(head),
        w.chains == v.chains.insert(head, chain),
    ensures
        w.lent_below(bound) == v.lent_below(bound) + (if head < bound {
            chain.len()
        } else {
            0
        }),
    decreases bound,
{
    if bound > 0 {
        lemma_lent_insert(v, w, head, chain, (bound - 1) as nat);
    }
}

/// Dropping a chain takes its length off the count below every larger bound.
pub(crate) proof fn lemma_lent_remove(v: TableView, w: TableView, head: u16, bound: nat)
    requires
        v.chains.dom().contains(head),
        w.chains == v.chains.remove(head),
    ensures
        w.lent_below(bound) + (if head < bound {
            v.chains[head].len()
        } else {
            0
        }) == v.lent_below(bound),
    decreases bound,
{
    if bound > 0 {
        lemma_lent_remove(v, w, head, (bound - 1) as nat);
    }
}

/// With no chain registered nothing is lent.
proof fn lemma_lent_empty(v: TableView, bound: nat)
    requires
        v.chains == Map::<u16, Seq<u16>>::empty(),
    ensures
        v.lent_below(bound) == 0,
    decreases bound,
{
    if bound > 0 {
        lemma_lent_empty(v, (bound - 1) as nat);
    }
}

/// The descriptor table with its free list and the record of lent chains.
pub struct DescriptorTable {
    slots: Vec<Descriptor>,
    origins: Vec<VirtAddr>,
    /// For each index, the length of the outstanding chain that starts there, 0 if none does.
    chain_len: Vec<u16>,
    free_head: u16,
    num_free: u16,
    free: Ghost<Seq<u16>>,
    chains: Ghost<Map<u16, Seq<u16>>>,
    owner: Ghost<Seq<SlotOwner>>,
}

impl View for DescriptorTable {
    type V = TableView;

    closed spec fn view(&self) -> TableView {
        TableView {
            slots: self.slots@,
            origins: self.origins@,
            free: self.free@,
            chains: self.chains@,
        }
    }
}

impl DescriptorTable {
    /// The representation is consistent: the ghost lists describe the linked
    /// structure in the entries, and every slot is on exactly one list.
    pub closed spec fn wf(&self) -> bool {
        let n = self.slots@.len();
        let free = self.free@;
        let chains = self.chains@;
        let owner = self.owner@;
        &&& 1 <= n <= MAX_QUEUE_SIZE
        &&& self.origins@.len() == n
        &&& self.chain_len@.len() == n
        &&& owner.len() == n
        &&& free.len() == self.num_free
        &&& (free.len() > 0 ==> self.free_head == free[0])
        &&& forall|i: int|
            0 <= i < free.len() ==> (#[trigger] free[i]) < n && owner[free[i] as int]
                == (SlotOwner::Free { pos: i })
        &&& self@.free_threaded()
        &&& forall|h: u16|
            #![trigger chains.dom().contains(h)]
            #![trigger self.chain_len@[h as int]]
            chains.dom().contains(h) <==> (h < n && self.chain_len@[h as int] > 0)
        &&& forall|h: u16| #[trigger]
            chains.dom().contains(h) ==> {
                &&& chains[h].len() == self.chain_len@[h as int]
                &&& chains[h][0] == h
                &&& self@.linked(chains[h])
            }
        &&& forall|h: u16, i: int|
            chains.dom().contains(h) && 0 <= i < chains[h].len() ==> (#[trigger] chains[h][i]) < n
                && owner[chains[h][i] as int] == (SlotOwner::Lent { head: h, pos: i })
        &&& free.len() + self@.lent() == n
    }

    /// A well-formed table satisfies the public invariant of its view.
    pub proof fn lemma_inv(&self)
        requires
            self.wf(),
        ensures
            self@.inv(),
    {
        let v = self@;
        let owner = self.owner@;
        assert(v.free.no_duplicates()) by {
            assert forall|i: int, j: int|
                0 <= i < v.free.len() && 0 <= j < v.free.len() && i != j implies v.free[i]
                != v.free[j] by {
                assert(owner[v.free[i] as int] == (SlotOwner::Free { pos: i }));
                assert(owner[v.free[j] as int] == (SlotOwner::Free { pos: j }));
            }
        }
        assert forall|h: u16| #[trigger] v.chains.dom().contains(h) implies {
            &&& h < v.size()
            &&& v.chains[h].len() >= 1
            &&& v.chains[h][0] == h
            &&& v.chains[h].no_duplicates()
            &&& v.linked(v.chains[h])
        } by {
            let c = v.chains[h];
            assert(self.chain_len@[h as int] > 0);
            assert forall|i: int, j: int| 0 <= i < c.len() && 0 <= j < c.len() && i != j implies c[i]
                != c[j] by {
                assert(owner[c[i] as int] == (SlotOwner::Lent { head: h, pos: i }));
                assert(owner[c[j] as int] == (SlotOwner::Lent { head: h, pos: j }));
            }
        }
        assert forall|h: u16, i: int, j: int|
            #![trigger v.chains[h][i], v.free[j]]
            v.chains.dom().contains(h) && 0 <= i < v.chains[h].len() && 0 <= j
                < v.free.len() implies v.chains[h][i] != v.free[j] by {
            assert(owner[v.chains[h][i] as int] == (SlotOwner::Lent { head: h, pos: i }));
            assert(owner[v.free[j] as int] == (SlotOwner::Free { pos: j }));
        }
        assert forall|g: u16, h: u16, i: int, j: int|
            #![trigger v.chains[g][i], v.chains[h][j]]
            v.chains.dom().contains(g) && v.chains.dom().contains(h) && g != h && 0 <= i
                < v.chains[g].len() && 0 <= j < v.chains[h].len() implies v.chains[g][i]
                != v.chains[h][j] by {
            assert(owner[v.chains[g][i] as int] == (SlotOwner::Lent { head: g, pos: i }));
            assert(owner[v.chains[h][j] as int] == (SlotOwner::Lent { head: h, pos: j }));
        }
    }

    /// A table of `size` entries, all free and linked `0 -> 1 -> .. -> size - 1`.
    pub fn new(size: u16) -> (r: Result<Self, Error>)
        ensures
            match r {
                Ok(t) => 1 <= size <= MAX_QUEUE_SIZE && t.wf() && t@.is_fresh(size as nat),
                Err(e) => e == Error::QueueSizeUnsupported && !(1 <= size <= MAX_QUEUE_SIZE),
            },
    {
        if size == 0 || size > MAX_QUEUE_SIZE {
            return Err(Error::QueueSizeUnsupported);
        }
        let mut slots: Vec<Descriptor> = Vec::new();
        let mut origins: Vec<VirtAddr> = Vec::new();
        let mut chain_len: Vec<u16> = Vec::new();
        let mut i: u16 = 0;
        while i < size
            invariant
                1 <= size <= MAX_QUEUE_SIZE,
                i <= size,
                slots@.len() == i,
                origins@.len() == i,
                chain_len@.len() == i,
                forall|j: int| 0 <= j < i ==> (#[trigger] slots@[j]).next == j + 1,
                forall|j: int| 0 <= j < i ==> #[trigger] chain_len@[j] == 0,
            decreases size - i,
        {
            slots.push(
                Descriptor {
                    addr: PhysAddr(0),
                    len: 0,
                    flags: DescFlags { next: false, write: false, indirect: false },
                    next: i + 1,
                },
            );
            origins.push(VirtAddr(0));
            chain_len.push(0);
            i = i + 1;
        }
        let ghost free = Seq::new(size as nat, |i: int| i as u16);
        let ghost owner = Seq::new(size as nat, |i: int| SlotOwner::Free { pos: i });
        let t = DescriptorTable {
            slots,
            origins,
            chain_len,
            free_head: 0,
            num_free: size,
            free: Ghost(free),
            chains: Ghost(Map::empty()),
            owner: Ghost(owner),
        };
        proof {
            lemma_lent_empty(t@, size as nat);
        }
        Ok(t)
    }

    /// Number of entries of the table.
    pub fn size(&self) -> (n: u16)
        requires
            self.wf(),
        ensures
            n == self@.size(),
    {
        self.slots.len() as u16
    }

    /// Number of descriptors on the free list.
    pub fn num_free(&self) -> (n: u16)
        requires
            self.wf(),
        ensures
            n == self@.free.len(),
            n + self@.lent() == self@.size(),
    {
        self.num_free
    }

    /// The entry at `index`, as the device reads it.
    pub fn descriptor(&self, index: u16) -> (d: Option<Descriptor>)
        requires
            self.wf(),
        ensures
            d == if index < self@.size() {
                Some(self@.slots[index as int])
            } else {
                None
            },
    {
        if (index as usize) < self.slots.len() {
            Some(self.slots[index as usize])
        } else {
            None
        }
    }

    /// Whether a chain that starts at `head` is lent to the device.
    pub fn is_outstanding(&self, head: u16) -> (b: bool)
        requires
            self.wf(),
        ensures
            b == self@.chains.dom().contains(head),
    {
        (head as usize) < self.chain_len.len() && self.chain_len[head as usize] > 0
    }

    /// Takes one descriptor per segment from the front of the free list and
    /// links them, in order, into a chain. Returns the head of the chain.
    ///
    /// Fails with `InvalidParam` on an empty request and with `QueueFull` when
    /// the free list is shorter than the request; the table is then untouched.
    pub fn alloc_chain(&mut self, segments: &Vec<Segment>) -> (r: Result<u16, Error>)
        requires
            old(self).wf(),
        ensures
            final(self).wf(),
            match r {
                Ok(head) => old(self)@.alloc_step(final(self)@, segments@, head),
                Err(e) => {
                    &&& *final(self) == *old(self)
                    &&& e == Error::InvalidParam <==> segments@.len() == 0
                    &&& e == Error::QueueFull <==> segments@.len() > old(self)@.free.len()
                    &&& e == Error::InvalidParam || e == Error::QueueFull
                },
            },
    {
        let k = segments.len();
        if k == 0 {
            return Err(Error::InvalidParam);
        }
        if k > self.num_free as usize {
            return Err(Error::QueueFull);
        }
        let head = self.free_head;
        let ghost free = self.free@;
        let ghost owner = self.owner@;
        let ghost n = self.slots@.len();
        let mut cur = head;
        let mut last = head;
        let mut i: usize = 0;
        while i < k
            invariant
                old(self).wf(),
                free == old(self).free@,
                owner == old(self).owner@,
                n == old(self).slots@.len(),
                self.free@ == free,
                self.chains@ == old(self).chains@,
                self.owner@ == owner,
                self.chain_len@ == old(self).chain_len@,
                self.num_free == old(self).num_free,
                self.free_head == old(self).free_head,
                self.slots@.len() == n,
                self.origins@.len() == n,
                k == segments@.len(),
                0 <= i <= k <= free.len(),
                i < free.len() ==> cur == free[i as int],
                i > 0 ==> last == free[i - 1],
                forall|j: int|
                    0 <= j < i ==> {
                        &&& (#[trigger] self.slots@[free[j] as int]).addr == segments@[j].addr
                        &&& self.slots@[free[j] as int].len == segments@[j].len
                        &&& self.slots@[free[j] as int].flags == (DescFlags {
                            next: true,
                            write: segments@[j].device_writable,
                            indirect: false,
                        })
                        &&& self.origins@[free[j] as int] == segments@[j].origin
                    },
                forall|s: int|
                    0 <= s < n ==> (#[trigger] self.slots@[s]).next == old(self).slots@[s].next,
                forall|s: int|
                    0 <= s < n && (#[trigger] owner[s]) is Lent ==> self.slots@[s] == old(
                        self,
                    ).slots@[s] && self.origins@[s] == old(self).origins@[s],
            decreases k - i,
        {
            let seg = segments[i];
            assert(free[i as int] < n);
            assert(owner[cur as int] == (SlotOwner::Free { pos: i as int }));
            let d = self.slots[cur as usize];
            proof {
                assert forall|j: int| 0 <= j < i implies free[j] != cur by {
                    assert(owner[free[j] as int] == (SlotOwner::Free { pos: j }));
                }
                if i + 1 < free.len() {
                    assert(old(self)@.free_threaded());
                    assert(old(self)@.free[i as int] == cur);
                    assert(old(self).slots@[old(self)@.free[i as int] as int].next == old(
                        self,
                    )@.free[i + 1]);
                }
            }
            self.slots.set(
                cur as usize,
                Descriptor {
                    addr: seg.addr,
                    len: seg.len,
                    flags: DescFlags { next: true, write: seg.device_writable, indirect: false },
                    next: d.next,
                },
            );
            self.origins.set(cur as usize, seg.origin);
            last = cur;
            cur = d.next;
            i = i + 1;
        }
        assert(free[k - 1] < n);
        let d = self.slots[last as usize];
        self.slots.set(
            last as usize,
            Descriptor {
                addr: d.addr,
                len: d.len,
                flags: DescFlags { next: false, write: d.flags.write, indirect: false },
                next: d.next,
            },
        );
        self.free_head = cur;
        self.num_free = self.num_free - (k as u16);
        self.chain_len.set(head as usize, k as u16);
        let ghost chain = free.subrange(0, k as int);
        let ghost rest = free.subrange(k as int, free.len() as int);
        proof {
            self.free = Ghost(rest);
            self.chains = Ghost(old(self).chains@.insert(head, chain));
            self.owner = Ghost(
                Seq::new(
                    n,
                    |s: int|
                        match owner[s] {
                            SlotOwner::Free { pos } => if pos < k {
                                SlotOwner::Lent { head, pos }
                            } else {
                                SlotOwner::Free { pos: pos - k }
                            },
                            SlotOwner::Lent { head: h, pos } => SlotOwner::Lent { head: h, pos },
                        },
                ),
            );
            let o = old(self)@;
            let f = self@;
            assert(o.free_threaded());
            assert(owner[free[0] as int] == (SlotOwner::Free { pos: 0 }));
            assert(owner[free[k - 1] as int] == (SlotOwner::Free { pos: k - 1 }));
            assert(!o.chains.dom().contains(head)) by {
                if o.chains.dom().contains(head) {
                    assert(o.chains[head][0] == head);
                    assert(owner[o.chains[head][0] as int] == (SlotOwner::Lent { head, pos: 0 }));
                }
            }
            lemma_lent_insert(o, f, head, chain, n);
            assert forall|a: int| 0 <= a < rest.len() implies (#[trigger] rest[a]) < n
                && self.owner@[rest[a] as int] == (SlotOwner::Free { pos: a }) by {
                assert(rest[a] == free[a + k]);
                assert(owner[free[a + k] as int] == (SlotOwner::Free { pos: a + k }));
            }
            assert(f.free_threaded()) by {
                assert forall|a: int, b: int|
                    #![trigger f.free[a], f.free[b]]
                    0 <= a && b == a + 1 && b < f.free.len() implies f.slots[f.free[a] as int].next
                    == f.free[b] by {
                    assert(f.free[a] == o.free[a + k]);
                    assert(f.free[b] == o.free[b + k]);
                    assert(owner[free[a + k] as int] == (SlotOwner::Free { pos: a + k }));
                    assert(o.slots[o.free[a + k] as int].next == o.free[b + k]);
                }
            }
            assert(f.linked(chain)) by {
                assert forall|a: int| 0 <= a < chain.len() implies (#[trigger] chain[a]) < f.size()
                    && f.slots[chain[a] as int].flags.next == (a + 1 < chain.len())
                    && !f.slots[chain[a] as int].flags.indirect by {
                    assert(chain[a] == o.free[a]);
                    assert(owner[free[a] as int] == (SlotOwner::Free { pos: a }));
                }
                assert forall|a: int, b: int|
                    #![trigger chain[a], chain[b]]
                    0 <= a && b == a + 1 && b < chain.len() implies f.slots[chain[a] as int].next
                    == chain[b] by {
                    assert(chain[a] == o.free[a]);
                    assert(owner[free[a] as int] == (SlotOwner::Free { pos: a }));
                    assert(chain[b] == o.free[b]);
                    assert(o.slots[o.free[a] as int].next == o.free[b]);
                }
            }
            assert forall|h: u16| #[trigger] o.chains.dom().contains(h) implies {
                &&& h != head
                &&& f.chains[h] == o.chains[h]
                &&& f.linked(o.chains[h])
                &&& f.segments(h) == o.segments(h)
            } by {
                let c = o.chains[h];
                assert(o.linked(c));
                assert forall|a: int| 0 <= a < c.len() implies f.slots[(#[trigger] c[a]) as int]
                    == o.slots[c[a] as int] && f.origins[c[a] as int] == o.origins[c[a] as int] by {
                    assert(owner[o.chains[h][a] as int] == (SlotOwner::Lent { head: h, pos: a }));
                }
                lemma_frame(o, f, c);
                assert(f.segments(h) =~= o.segments(h));
            }
            assert forall|h: u16| #[trigger] f.chains.dom().contains(h) implies {
                &&& f.chains[h].len() == self.chain_len@[h as int]
                &&& f.chains[h][0] == h
                &&& f.linked(f.chains[h])
            } by {
                if h != head {
                    assert(o.chains.dom().contains(h));
                }
            }
            assert forall|h: u16, a: int|
                f.chains.dom().contains(h) && 0 <= a < f.chains[h].len() implies (
            #[trigger] f.chains[h][a]) < n && self.owner@[f.chains[h][a] as int] == (
            SlotOwner::Lent { head: h, pos: a }) by {
                if h == head {
                    assert(chain[a] == free[a]);
                    assert(owner[free[a] as int] == (SlotOwner::Free { pos: a }));
                } else {
                    assert(o.chains.dom().contains(h));
                    assert(owner[o.chains[h][a] as int] == (SlotOwner::Lent { head: h, pos: a }));
                }
            }
            assert(f.segments(head) =~= segments@) by {
                assert forall|a: int| 0 <= a < k implies f.segments(head)[a] == segments@[a] by {
                    assert(chain[a] == free[a]);
                    assert(owner[free[a] as int] == (SlotOwner::Free { pos: a }));
                }
            }
            assert forall|h: u16|
                #![trigger f.chains.dom().contains(h)]
                #![trigger self.chain_len@[h as int]]
                f.chains.dom().contains(h) <==> (h < n && self.chain_len@[h as int] > 0) by {
                if h != head {
                    assert(o.chains.dom().contains(h) <==> (h < n && old(self).chain_len@[h as int]
                        > 0));
                }
            }
        }
        Ok(head)
    }

    /// Returns the chain that starts at `head` to the front of the free
    /// list, and hands back its buffers in chain order.
    ///
    /// Fails with `WrongToken`, leaving the table untouched, when no chain
    /// that starts at `head` is outstanding.
    pub fn free_chain(&mut self, head: u16) -> (r: Result<Vec<Segment>, Error>)
        requires
            old(self).wf(),
        ensures
            final(self).wf(),
            match r {
                Ok(segments) => segments@ == old(self)@.segments(head) && old(self)@.free_step(
                    final(self)@,
                    head,
                ),
                Err(e) => {
                    &&& *final(self) == *old(self)
                    &&& e == Error::WrongToken
                    &&& !old(self)@.chains.dom().contains(head)
                },
            },
    {
        if (head as usize) >= self.chain_len.len() || self.chain_len[head as usize] == 0 {
            return Err(Error::WrongToken);
        }
        let len = self.chain_len[head as usize];
        let ghost chain = self.chains@[head];
        let ghost free = self.free@;
        let ghost owner = self.owner@;
        let ghost n = self.slots@.len();
        let mut out: Vec<Segment> = Vec::new();
        let mut cur = head;
        let mut last = head;
        let mut i: u16 = 0;
        assert(self.chains@.dom().contains(head));
        while i < len
            invariant
                self.wf(),
                *self == *old(self),
                chain == self.chains@[head],
                self.chains@.dom().contains(head),
                len == chain.len(),
                0 <= i <= len,
                i < len ==> cur == chain[i as int],
                i > 0 ==> last == chain[i - 1],
                out@.len() == i,
                forall|j: int| 0 <= j < i ==> out@[j] == self@.segments(head)[j],
            decreases len - i,
        {
            assert(chain[i as int] < self.slots@.len());
            let d = self.slots[cur as usize];
            out.push(
                Segment {
                    addr: d.addr,
                    origin: self.origins[cur as usize],
                    len: d.len,
                    device_writable: d.flags.write,
                },
            );
            proof {
                assert(self@.linked(chain));
                if i + 1 < len {
                    assert(self.slots@[chain[i as int] as int].next == chain[i + 1]);
                }
            }
            last = cur;
            cur = d.next;
            i = i + 1;
        }
        assert(out@ =~= old(self)@.segments(head));
        assert(chain[len - 1] < n);
        let d = self.slots[last as usize];
        self.slots.set(
            last as usize,
            Descriptor { addr: d.addr, len: d.len, flags: d.flags, next: self.free_head },
        );
        proof {
            // What is lent shrinks by the chain, so the counter below cannot overflow.
            lemma_lent_remove(
                old(self)@,
                TableView { chains: old(self)@.chains.remove(head), ..old(self)@ },
                head,
                n,
            );
        }
        self.free_head = head;
        self.num_free = self.num_free + len;
        self.chain_len.set(head as usize, 0);
        proof {
            self.free = Ghost(chain + free);
            self.chains = Ghost(old(self).chains@.remove(head));
            self.owner = Ghost(
                Seq::new(
                    n,
                    |s: int|
                        match owner[s] {
                            SlotOwner::Free { pos } => SlotOwner::Free { pos: pos + len },
                            SlotOwner::Lent { head: h, pos } => if h == head {
                                SlotOwner::Free { pos }
                            } else {
                                SlotOwner::Lent { head: h, pos }
                            },
                        },
                ),
            );
            let o = old(self)@;
            let f = self@;
            lemma_lent_remove(o, f, head, n);
            assert(o.linked(chain));
            assert(o.free_threaded());
            assert(owner[chain[len - 1] as int] == (SlotOwner::Lent { head, pos: len - 1 }));
            assert forall|a: int| 0 <= a < f.free.len() implies (#[trigger] f.free[a]) < n
                && self.owner@[f.free[a] as int] == (SlotOwner::Free { pos: a }) by {
                if a < len {
                    assert(f.free[a] == chain[a]);
                    assert(owner[o.chains[head][a] as int] == (SlotOwner::Lent { head, pos: a }));
                } else {
                    assert(f.free[a] == free[a - len]);
                    assert(owner[free[a - len] as int] == (SlotOwner::Free { pos: a - len }));
                }
            }
            assert(f.free_threaded()) by {
                assert forall|a: int, b: int|
                    #![trigger f.free[a], f.free[b]]
                    0 <= a && b == a + 1 && b < f.free.len() implies f.slots[f.free[a] as int].next
                    == f.free[b] by {
                    if a < len {
                        assert(f.free[a] == chain[a]);
                        assert(owner[o.chains[head][a] as int] == (SlotOwner::Lent {
                            head,
                            pos: a,
                        }));
                        if b < len {
                            assert(f.free[b] == chain[b]);
                            assert(o.slots[chain[a] as int].next == chain[b]);
                        } else {
                            assert(f.free[b] == free[0]);
                        }
                    } else {
                        assert(f.free[a] == o.free[a - len]);
                        assert(owner[free[a - len] as int] == (SlotOwner::Free { pos: a - len }));
                        assert(f.free[b] == o.free[b - len]);
                        assert(o.slots[o.free[a - len] as int].next == o.free[b - len]);
                    }
                }
            }
            assert forall|h: u16| #[trigger] f.chains.dom().contains(h) implies {
                &&& h != head
                &&& o.chains.dom().contains(h)
                &&& f.chains[h] == o.chains[h]
                &&& f.linked(o.chains[h])
                &&& f.segments(h) == o.segments(h)
            } by {
                let c = o.chains[h];
                assert(o.chains.dom().contains(h));
                assert(o.linked(c));
                assert forall|a: int| 0 <= a < c.len() implies f.slots[(#[trigger] c[a]) as int]
                    == o.slots[c[a] as int] && f.origins[c[a] as int] == o.origins[c[a] as int] by {
                    assert(owner[o.chains[h][a] as int] == (SlotOwner::Lent { head: h, pos: a }));
                }
                lemma_frame(o, f, c);
                assert(f.segments(h) =~= o.segments(h));
            }
            assert forall|h: u16, a: int|
                f.chains.dom().contains(h) && 0 <= a < f.chains[h].len() implies (
            #[trigger] f.chains[h][a]) < n && self.owner@[f.chains[h][a] as int] == (
            SlotOwner::Lent { head: h, pos: a }) by {
                assert(o.chains.dom().contains(h));
                assert(owner[o.chains[h][a] as int] == (SlotOwner::Lent { head: h, pos: a }));
            }
            assert forall|h: u16|
                #![trigger f.chains.dom().contains(h)]
                #![trigger self.chain_len@[h as int]]
                f.chains.dom().contains(h) <==> (h < n && self.chain_len@[h as int] > 0) by {
                if h != head {
                    assert(o.chains.dom().contains(h) <==> (h < n && old(self).chain_len@[h as int]
                        > 0));
                }
            }
        }
        Ok(out)
    }
}

/// A chain stays a chain when none of its entries is touched.
proof fn lemma_frame(v: TableView, w: TableView, chain: Seq<u16>)
    requires
        v.linked(chain),
        v.size() == w.size(),
        forall|i: int|
            0 <= i < chain.len() ==> w.slots[(#[trigger] chain[i]) as int] == v.slots[chain[i] as int],
    ensures
        w.linked(chain),
{
    assert forall|i: int, j: int|
        #![trigger chain[i], chain[j]]
        0 <= i && j == i + 1 && j < chain.len() implies w.slots[chain[i] as int].next
        == chain[j] by {
        assert(w.slots[chain[i] as int] == v.slots[chain[i] as int]);
    }
}

} // verus!
