//! A HAL over a fixed pool of pages, for platforms where software addresses
//! and device-physical addresses are the same numbers.
//!
//! Regions are handed out first-fit. Sharing a buffer needs no work on such a
//! platform, so the pool only keeps account of what is shared.
use vstd::multiset::Multiset;
use vstd::prelude::*;
use vstd::seq_lib::{to_multiset_contains, to_multiset_remove};

use crate::hal::{
    region_end, regions_disjoint, Buffer, BufferDirection, Dma, Hal, HalState, PhysAddr, Share,
    VirtAddr, PAGE_SIZE,
};
use crate::Error;

verus! {

/// Pages `start .. start + pages` all lie in the pool and none is in use.
pub open spec fn free_run(used: Seq<bool>, start: int, pages: int) -> bool {
    &&& 0 <= start
    &&& start + pages <= used.len()
    &&& forall|p: int| start <= p < start + pages ==> !(#[trigger] used[p])
}

/// A whole number of pages past an aligned address is an aligned address.
proof fn lemma_page_aligned(base: int, index: int)
    requires
        base % (PAGE_SIZE as int) == 0,
        0 <= base,
        0 <= index,
    ensures
        (base + index * PAGE_SIZE) % (PAGE_SIZE as int) == 0,
        (base + index * PAGE_SIZE - base) / (PAGE_SIZE as int) == index,
{
    assert((base + index * 4096) % 4096 == 0) by (nonlinear_arith)
        requires
            base % 4096 == 0,
    ;
    assert((index * 4096) / 4096 == index) by (nonlinear_arith);
}

/// A pool of pages with the account of what is handed out and what is shared.
pub struct PagePool {
    /// Address of the first page, in bytes; a multiple of the page size.
    base: usize,
    /// For each page, whether it belongs to a region that is handed out.
    used: Vec<bool>,
    /// The sharings that have not been withdrawn, oldest first.
    shares: Vec<Share>,
    regions: Ghost<Map<PhysAddr, nat>>,
    /// For each page in use, the first page of its region.
    start_of: Ghost<Seq<int>>,
}

impl PagePool {
    /// Which pages are in use.
    pub closed spec fn pages(&self) -> Seq<bool> {
        self.used@
    }

    /// The address of the first page.
    pub closed spec fn base(&self) -> usize {
        self.base
    }

    /// The address of page `index`.
    pub open spec fn page_addr(&self, index: int) -> int {
        self.base() + index * PAGE_SIZE
    }

    /// A pool of `pages` pages that starts at page number `first_page`, with
    /// nothing handed out and nothing shared. `None` if the pool would reach
    /// past the end of the address space.
    pub fn new(first_page: usize, pages: usize) -> (r: Option<Self>)
        ensures
            match r {
                Some(pool) => {
                    &&& (first_page + pages) * PAGE_SIZE <= usize::MAX
                    &&& pool.wf()
                    &&& pool.base() == first_page * PAGE_SIZE
                    &&& pool.pages() == Seq::new(pages as nat, |i: int| false)
                    &&& pool.view() == (HalState {
                        allocated: Map::empty(),
                        shared: Multiset::empty(),
                    })
                },
                None => (first_page + pages) * PAGE_SIZE > usize::MAX,
            },
    {
        let limit = usize::MAX / PAGE_SIZE;
        if first_page > limit || pages > limit - first_page {
            return None;
        }
        let mut used: Vec<bool> = Vec::new();
        let mut i: usize = 0;
        while i < pages
            invariant
                0 <= i <= pages,
                used@.len() == i,
                forall|j: int| 0 <= j < i ==> !(#[trigger] used@[j]),
            decreases pages - i,
        {
            used.push(false);
            i = i + 1;
        }
        let pool = PagePool {
            base: first_page * PAGE_SIZE,
            used,
            shares: Vec::new(),
            regions: Ghost(Map::empty()),
            start_of: Ghost(Seq::new(pages as nat, |i: int| 0int)),
        };
        proof {
            assert(pool.pages() =~= Seq::new(pages as nat, |i: int| false));
            assert(pool.shares@.to_multiset() =~= Multiset::empty()) by {
                pool.shares@.to_multiset_ensures();
            }
        }
        Some(pool)
    }

    /// Number of pages of the pool.
    pub fn page_count(&self) -> (n: usize)
        ensures
            n == self.pages().len(),
    {
        self.used.len()
    }

    /// Whether page `index` belongs to a region that is handed out.
    pub fn page_in_use(&self, index: usize) -> (b: bool)
        ensures
            b == (index < self.pages().len() && self.pages()[index as int]),
    {
        index < self.used.len() && self.used[index]
    }

    /// Number of sharings that have not been withdrawn.
    pub fn shared_count(&self) -> (n: usize)
        ensures
            n == self.view().shared.len(),
    {
        proof {
            self.shares@.to_multiset_ensures();
        }
        self.shares.len()
    }

    /// The page that the region at `paddr` starts on.
    closed spec fn page_of(&self, paddr: PhysAddr) -> int {
        (paddr.0 - self.base) / (PAGE_SIZE as int)
    }

    /// Every region is made of pages in use that know where their region starts.
    closed spec fn regions_sound(&self) -> bool {
        forall|b: PhysAddr| #[trigger]
            self.regions@.dom().contains(b) ==> {
                let s = self.page_of(b);
                &&& b.0 == self.base + s * PAGE_SIZE
                &&& 0 <= s
                &&& self.regions@[b] >= 1
                &&& s + self.regions@[b] <= self.used@.len()
                &&& forall|p: int|
                    s <= p < s + self.regions@[b] ==> (#[trigger] self.used@[p])
                        && self.start_of@[p] == s
            }
    }

    /// Every page in use lies in a region.
    closed spec fn pages_sound(&self) -> bool {
        forall|p: int|
            0 <= p < self.used@.len() && (#[trigger] self.used@[p]) ==> {
                let s = self.start_of@[p];
                let b = PhysAddr((self.base + s * PAGE_SIZE) as u64);
                &&& 0 <= s <= p
                &&& self.regions@.dom().contains(b)
                &&& p < s + self.regions@[b]
            }
    }
}

impl Hal for PagePool {
    closed spec fn view(&self) -> HalState {
        HalState { allocated: self.regions@, shared: self.shares@.to_multiset() }
    }

    closed spec fn wf(&self) -> bool {
        &&& self.base % PAGE_SIZE == 0
        &&& self.base + self.used@.len() * PAGE_SIZE <= usize::MAX
        &&& self.start_of@.len() == self.used@.len()
        &&& self.regions_sound()
        &&& self.pages_sound()
    }

    open spec fn mmio_translation(paddr: PhysAddr) -> VirtAddr {
        VirtAddr(paddr.0 as usize)
    }

    /// First fit: the region starts at the lowest page from which `pages`
    /// pages in a row are free, and the request fails exactly when there is
    /// no such page.
    fn allocate(&mut self, pages: usize) -> (r: Result<Dma, Error>)
        ensures
            final(self).base() == old(self).base(),
            final(self).pages().len() == old(self).pages().len(),
            match r {
                Ok(dma) => exists|start: int|
                    {
                        &&& #[trigger] free_run(old(self).pages(), start, pages as int)
                        &&& forall|s: int|
                            0 <= s < start ==> !#[trigger] free_run(
                                old(self).pages(),
                                s,
                                pages as int,
                            )
                        &&& dma.paddr.0 == old(self).page_addr(start)
                        &&& dma.vaddr.0 == old(self).page_addr(start)
                        &&& forall|p: int|
                            0 <= p < old(self).pages().len() ==> #[trigger] final(self).pages()[p]
                                == (old(self).pages()[p] || start <= p < start + pages)
                    },
                Err(_) => pages == 0 || forall|s: int|
                    !#[trigger] free_run(old(self).pages(), s, pages as int),
            },
    {
        let n = self.used.len();
        if pages == 0 || pages > n {
            return Err(Error::OutOfMemory);
        }
        let mut start: usize = 0;
        while start <= n - pages
            invariant
                *self == *old(self),
                self.wf(),
                n == self.used@.len(),
                1 <= pages <= n,
                forall|s: int| 0 <= s < start ==> !#[trigger] free_run(self.used@, s, pages as int),
            decreases n - start,
        {
            let mut j: usize = 0;
            while j < pages && !self.used[start + j]
                invariant
                    *self == *old(self),
                    n == self.used@.len(),
                    start + pages <= n,
                    0 <= j <= pages,
                    forall|p: int| start <= p < start + j ==> !(#[trigger] self.used@[p]),
                decreases pages - j,
            {
                j = j + 1;
            }
            if j == pages {
                assert(free_run(self.used@, start as int, pages as int));
                let addr = self.base + start * PAGE_SIZE;
                let dma = Dma { paddr: PhysAddr(addr as u64), vaddr: VirtAddr(addr), pages };
                proof {
                    assert(self.page_of(dma.paddr) == start) by {
                        assert((start * PAGE_SIZE) as int / (PAGE_SIZE as int) == start);
                    }
                    if self.regions@.dom().contains(dma.paddr) {
                        assert(self.used@[start as int]);
                    }
                    assert forall|b: PhysAddr| #[trigger]
                        self.regions@.dom().contains(b) implies regions_disjoint(
                        dma.paddr,
                        pages as nat,
                        b,
                        self.regions@[b],
                    ) by {
                        let s = self.page_of(b);
                        let m = self.regions@[b];
                        if s < start + pages && start < s + m {
                            let p = if s < start {
                                start as int
                            } else {
                                s
                            };
                            assert(self.used@[p]);
                            assert(!self.used@[p]);
                        }
                    }
                }
                let mut k: usize = 0;
                while k < pages
                    invariant
                        0 <= k <= pages,
                        start + pages <= n,
                        n == self.used@.len(),
                        n == old(self).used@.len(),
                        self.base == old(self).base,
                        self.shares == old(self).shares,
                        self.regions == old(self).regions,
                        self.start_of == old(self).start_of,
                        forall|p: int|
                            0 <= p < n ==> #[trigger] self.used@[p] == (old(self).used@[p] || start
                                <= p < start + k),
                    decreases pages - k,
                {
                    self.used.set(start + k, true);
                    k = k + 1;
                }
                proof {
                    let old_start_of = self.start_of@;
                    self.regions = Ghost(self.regions@.insert(dma.paddr, pages as nat));
                    self.start_of = Ghost(
                        Seq::new(
                            n as nat,
                            |p: int|
                                if start <= p < start + pages {
                                    start as int
                                } else {
                                    old_start_of[p]
                                },
                        ),
                    );
                    assert(self.regions_sound()) by {
                        assert forall|b: PhysAddr| #[trigger]
                            self.regions@.dom().contains(b) implies {
                            let s = self.page_of(b);
                            &&& b.0 == self.base + s * PAGE_SIZE
                            &&& 0 <= s
                            &&& self.regions@[b] >= 1
                            &&& s + self.regions@[b] <= self.used@.len()
                            &&& forall|p: int|
                                s <= p < s + self.regions@[b] ==> (#[trigger] self.used@[p])
                                    && self.start_of@[p] == s
                        } by {
                            if b != dma.paddr {
                                assert(old(self).regions@.dom().contains(b));
                                let s = old(self).page_of(b);
                                assert forall|p: int|
                                    s <= p < s + self.regions@[b] implies (#[trigger] self.used@[p])
                                    && self.start_of@[p] == s by {
                                    assert(old(self).used@[p]);
                                }
                            }
                        }
                    }
                    assert(self.pages_sound()) by {
                        assert forall|p: int|
                            0 <= p < self.used@.len() && (#[trigger] self.used@[p]) implies {
                            let s = self.start_of@[p];
                            let b = PhysAddr((self.base + s * PAGE_SIZE) as u64);
                            &&& 0 <= s <= p
                            &&& self.regions@.dom().contains(b)
                            &&& p < s + self.regions@[b]
                        } by {
                            if !(start <= p < start + pages) {
                                assert(old(self).used@[p]);
                                let s = old(self).start_of@[p];
                                let b = PhysAddr((self.base + s * PAGE_SIZE) as u64);
                                assert(old(self).regions@.dom().contains(b));
                                assert(b != dma.paddr);
                            }
                        }
                    }
                }
                proof {
                    lemma_page_aligned(self.base as int, start as int);
                    assert(free_run(old(self).pages(), start as int, pages as int));
                }
                return Ok(dma);
            }
            proof {
                assert(self.used@[start + j]);
                assert forall|s: int| start <= s <= start + j implies !#[trigger] free_run(
                    self.used@,
                    s,
                    pages as int,
                ) by {
                    if free_run(self.used@, s, pages as int) {
                        assert(!self.used@[start + j]);
                    }
                }
            }
            start = start + j + 1;
        }
        proof {
            assert forall|s: int| !#[trigger] free_run(self.used@, s, pages as int) by {}
        }
        Err(Error::OutOfMemory)
    }

    /// The pages of the region become free again.
    fn deallocate(&mut self, dma: Dma)
        ensures
            final(self).base() == old(self).base(),
            final(self).pages().len() == old(self).pages().len(),
            exists|start: int|
                {
                    &&& dma.paddr.0 == #[trigger] old(self).page_addr(start)
                    &&& 0 <= start
                    &&& start + dma.pages <= old(self).pages().len()
                    &&& forall|p: int|
                        0 <= p < old(self).pages().len() ==> #[trigger] final(self).pages()[p] == (
                        old(self).pages()[p] && !(start <= p < start + dma.pages))
                },
    {
        let ghost s = self.page_of(dma.paddr);
        assert(self.regions@.dom().contains(dma.paddr));
        let start = ((dma.paddr.0 - self.base as u64) / (PAGE_SIZE as u64)) as usize;
        assert(start == s);
        let n = self.used.len();
        let mut k: usize = 0;
        while k < dma.pages
            invariant
                0 <= k <= dma.pages,
                start + dma.pages <= n,
                n == self.used@.len(),
                n == old(self).used@.len(),
                self.base == old(self).base,
                self.shares == old(self).shares,
                self.regions == old(self).regions,
                self.start_of == old(self).start_of,
                forall|p: int|
                    0 <= p < n ==> #[trigger] self.used@[p] == (old(self).used@[p] && !(start <= p
                        < start + k)),
            decreases dma.pages - k,
        {
            self.used.set(start + k, false);
            k = k + 1;
        }
        proof {
            self.regions = Ghost(self.regions@.remove(dma.paddr));
            assert(self.regions_sound()) by {
                assert forall|b: PhysAddr| #[trigger] self.regions@.dom().contains(b) implies {
                    let s = self.page_of(b);
                    &&& b.0 == self.base + s * PAGE_SIZE
                    &&& 0 <= s
                    &&& self.regions@[b] >= 1
                    &&& s + self.regions@[b] <= self.used@.len()
                    &&& forall|p: int|
                        s <= p < s + self.regions@[b] ==> (#[trigger] self.used@[p])
                            && self.start_of@[p] == s
                } by {
                    assert(old(self).regions@.dom().contains(b));
                    let sb = old(self).page_of(b);
                    assert forall|p: int| sb <= p < sb + self.regions@[b] implies (
                    #[trigger] self.used@[p]) && self.start_of@[p] == sb by {
                        assert(old(self).used@[p]);
                        if start <= p < start + dma.pages {
                            assert(old(self).start_of@[p] == start);
                        }
                    }
                }
            }
            assert(self.pages_sound()) by {
                assert forall|p: int|
                    0 <= p < self.used@.len() && (#[trigger] self.used@[p]) implies {
                    let s = self.start_of@[p];
                    let b = PhysAddr((self.base + s * PAGE_SIZE) as u64);
                    &&& 0 <= s <= p
                    &&& self.regions@.dom().contains(b)
                    &&& p < s + self.regions@[b]
                } by {
                    assert(old(self).used@[p]);
                }
            }
            assert(dma.paddr.0 == old(self).page_addr(start as int));
        }
    }

    fn share(&mut self, buffer: Buffer, direction: BufferDirection) -> (paddr: PhysAddr)
        ensures
            paddr.0 == buffer.vaddr.0,
            final(self).base() == old(self).base(),
            final(self).pages() == old(self).pages(),
    {
        let paddr = PhysAddr(buffer.vaddr.0 as u64);
        proof {
            self.shares@.to_multiset_ensures();
        }
        self.shares.push(Share { paddr, buffer, direction });
        paddr
    }

    fn unshare(&mut self, paddr: PhysAddr, buffer: Buffer, direction: BufferDirection)
        ensures
            final(self).base() == old(self).base(),
            final(self).pages() == old(self).pages(),
    {
        let share = Share { paddr, buffer, direction };
        let mut i: usize = 0;
        while i < self.shares.len() && !(self.shares[i] == share)
            invariant
                *self == *old(self),
                0 <= i <= self.shares@.len(),
                forall|j: int| 0 <= j < i ==> self.shares@[j] != share,
            decreases self.shares@.len() - i,
        {
            i = i + 1;
        }
        if i < self.shares.len() {
            proof {
                to_multiset_remove(self.shares@, i as int);
            }
            self.shares.remove(i);
        } else {
            proof {
                to_multiset_contains(self.shares@, share);
                assert(self.shares@.to_multiset().remove(share) =~= self.shares@.to_multiset());
            }
        }
    }

    fn mmio_phys_to_virt(&self, paddr: PhysAddr, size: usize) -> (vaddr: VirtAddr) {
        VirtAddr(#[verifier::truncate] (paddr.0 as usize))
    }
}

} // verus!
