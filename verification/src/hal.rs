//! The hardware abstraction contract: DMA-safe memory and address translation.
//!
//! Software addresses and device-physical addresses are distinct types, so a
//! value can only move from one space to the other through a [`Hal`].
use vstd::multiset::Multiset;
use vstd::prelude::*;

use crate::Error;

pub mod pool;

verus! {

/// Size in bytes of one page of DMA memory.
pub const PAGE_SIZE: usize = 4096;

/// An address in the space the device's DMA engine works in.
#[derive(Clone, Copy, Debug, PartialEq, Eq, Structural)]
pub struct PhysAddr(pub u64);

/// An address in the space the driver's own loads and stores work in.
#[derive(Clone, Copy, Debug, PartialEq, Eq, Structural)]
pub struct VirtAddr(pub usize);

/// Which side writes a shared buffer.
#[derive(Clone, Copy, Debug, PartialEq, Eq, Structural)]
pub enum BufferDirection {
    /// The driver fills the buffer; the device only reads it.
    DriverToDevice,
    /// The device fills the buffer; the driver reads it after completion.
    DeviceToDriver,
    /// Both sides may read and write.
    Both,
}

/// A caller-owned memory region, named by where it starts and how long it is.
#[derive(Clone, Copy, Debug, PartialEq, Eq, Structural)]
pub struct Buffer {
    /// Where the region starts.
    pub vaddr: VirtAddr,
    /// Its length in bytes.
    pub len: u32,
}

/// One outstanding sharing of a caller-owned buffer with the device.
#[derive(Clone, Copy, Debug, PartialEq, Eq, Structural)]
pub struct Share {
    /// The address the device was given.
    pub paddr: PhysAddr,
    /// The buffer that was shared.
    pub buffer: Buffer,
    /// Which side may write it.
    pub direction: BufferDirection,
}

/// A DMA region obtained from a [`Hal`]: contiguous in device-physical space.
#[derive(Clone, Copy, Debug, PartialEq, Eq, Structural)]
pub struct Dma {
    /// Where the device finds the region.
    pub paddr: PhysAddr,
    /// Where the driver finds it.
    pub vaddr: VirtAddr,
    /// Its length in pages.
    pub pages: usize,
}

/// What a HAL is accountable for at any moment.
#[verifier::ext_equal]
pub struct HalState {
    /// Regions handed out and not yet released: base address to page count.
    pub allocated: Map<PhysAddr, nat>,
    /// Foreign buffers currently shared with the device; a buffer shared twice counts twice.
    pub shared: Multiset<Share>,
}

/// One past the last byte of a region of `pages` pages that starts at `base`.
pub open spec fn region_end(base: PhysAddr, pages: nat) -> int {
    base.0 + pages * PAGE_SIZE
}

/// Two regions have no byte in common.
pub open spec fn regions_disjoint(a: PhysAddr, a_pages: nat, b: PhysAddr, b_pages: nat) -> bool {
    region_end(a, a_pages) <= b.0 || region_end(b, b_pages) <= a.0
}

/// Number of whole pages needed to hold `bytes` bytes.
pub open spec fn spec_pages_for(bytes: nat) -> nat {
    (bytes + PAGE_SIZE - 1) as nat / (PAGE_SIZE as nat)
}

/// Number of whole pages needed to hold `bytes` bytes.
pub fn pages_for(bytes: usize) -> (pages: usize)
    ensures
        pages == spec_pages_for(bytes as nat),
        pages * PAGE_SIZE >= bytes,
        bytes > 0 ==> pages >= 1,
{
    let whole = bytes / PAGE_SIZE;
    if bytes % PAGE_SIZE == 0 {
        whole
    } else {
        whole + 1
    }
}

/// The contract between the drivers and the platform's memory management.
///
/// Every address the device is given comes from here, and every region the
/// device may touch is accounted for in the state that [`Hal::view`] names.
pub trait Hal {
    /// What the HAL is accountable for.
    spec fn view(&self) -> HalState;

    /// The implementation's own consistency condition.
    spec fn wf(&self) -> bool;

    /// Where the platform maps a device's register region; fixed for the life of the system.
    spec fn mmio_translation(paddr: PhysAddr) -> VirtAddr;

    /// Hands out `pages` pages of DMA memory, contiguous in device-physical
    /// space, page-aligned and apart from every region already handed out.
    /// A request that cannot be met, and every request for no pages, fails
    /// with `OutOfMemory` and changes nothing.
    fn allocate(&mut self, pages: usize) -> (r: Result<Dma, Error>)
        requires
            old(self).wf(),
        ensures
            final(self).wf(),
            match r {
                Ok(dma) => {
                    &&& pages >= 1
                    &&& dma.pages == pages
                    &&& dma.paddr.0 % (PAGE_SIZE as u64) == 0
                    &&& region_end(dma.paddr, pages as nat) <= u64::MAX
                    &&& !old(self).view().allocated.dom().contains(dma.paddr)
                    &&& forall|b: PhysAddr| #[trigger]
                        old(self).view().allocated.dom().contains(b) ==> regions_disjoint(
                            dma.paddr,
                            pages as nat,
                            b,
                            old(self).view().allocated[b],
                        )
                    &&& final(self).view() == (HalState {
                        allocated: old(self).view().allocated.insert(dma.paddr, pages as nat),
                        ..old(self).view()
                    })
                },
                Err(e) => e == Error::OutOfMemory && final(self).view() == old(self).view(),
            },
    ;

    /// Takes back a region that `allocate` handed out and that is still out.
    fn deallocate(&mut self, dma: Dma)
        requires
            old(self).wf(),
            old(self).view().allocated.contains_pair(dma.paddr, dma.pages as nat),
        ensures
            final(self).wf(),
            final(self).view() == (HalState {
                allocated: old(self).view().allocated.remove(dma.paddr),
                ..old(self).view()
            }),
    ;

    /// Makes a caller-owned buffer reachable by the device and says at which
    /// address. Ownership stays with the caller.
    fn share(&mut self, buffer: Buffer, direction: BufferDirection) -> (paddr: PhysAddr)
        requires
            old(self).wf(),
        ensures
            final(self).wf(),
            final(self).view() == (HalState {
                shared: old(self).view().shared.insert(Share { paddr, buffer, direction }),
                ..old(self).view()
            }),
    ;

    /// Withdraws one sharing of a buffer.
    fn unshare(&mut self, paddr: PhysAddr, buffer: Buffer, direction: BufferDirection)
        requires
            old(self).wf(),
        ensures
            final(self).wf(),
            final(self).view() == (HalState {
                shared: old(self).view().shared.remove(Share { paddr, buffer, direction }),
                ..old(self).view()
            }),
    ;

    /// Turns the physical address of a device's register region into one the driver can use.
    fn mmio_phys_to_virt(&self, paddr: PhysAddr, size: usize) -> (vaddr: VirtAddr)
        requires
            self.wf(),
        ensures
            vaddr == Self::mmio_translation(paddr),
    ;
}

} // verus!
