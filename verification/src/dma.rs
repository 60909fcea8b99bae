//! Frame arithmetic for the memory that a block driver uses for DMA.
//!
//! The driver asks the kernel for runs of physically contiguous pages and
//! gives them back by base address and page count. Taking frames from the
//! frame allocator and returning them is the kernel's part; what is decided
//! here is whether the frames it took form one run, where the run starts,
//! and which frames a release covers.

use vstd::prelude::*;

verus! {

/// Bits of an address that select a byte inside a page.
pub const PAGE_SIZE_BITS: usize = 12;

/// Size of a page in bytes.
pub const PAGE_SIZE: usize = 4096;

/// A physical address.
#[derive(Copy, Clone, PartialEq, Eq, Structural, Debug)]
pub struct PhysAddr(pub usize);

/// A virtual address.
#[derive(Copy, Clone, PartialEq, Eq, Structural, Debug)]
pub struct VirtAddr(pub usize);

/// The number of a physical page frame.
#[derive(Copy, Clone, PartialEq, Eq, Structural, Debug)]
pub struct PhysPageNum(pub usize);

/// Whether each frame of `frames` follows the one before it in physical
/// memory.
pub open spec fn is_contiguous(frames: Seq<PhysPageNum>) -> bool {
    forall|i: int| 0 <= i < frames.len() ==> (#[trigger] frames[i]).0 == frames[0].0 + i
}

/// The number of the frame at which a run starts; zero for an empty run.
pub open spec fn base_frame(frames: Seq<PhysPageNum>) -> int {
    if frames.len() == 0 {
        0
    } else {
        frames[0].0 as int
    }
}

/// The frames that make up `pages` pages from the address `pa` on.
pub open spec fn frames_from(pa: PhysAddr, pages: nat) -> Seq<PhysPageNum> {
    Seq::new(pages, |i: int| PhysPageNum((pa.0 / PAGE_SIZE + i) as usize))
}

/// The base address of the run that `frames` form, in the order in which
/// they were taken from the allocator.
///
/// `None` when the frames do not follow one another, or when the run starts
/// beyond what an address can hold.
pub fn virtio_dma_alloc(frames: &[PhysPageNum]) -> (base: Option<PhysAddr>)
    ensures
        match base {
            Some(pa) => is_contiguous(frames@) && pa.0 == base_frame(frames@) * PAGE_SIZE,
            None => !is_contiguous(frames@) || base_frame(frames@) * PAGE_SIZE > usize::MAX,
        },
{
    let mut ppn_base = PhysPageNum(0);
    let mut i: usize = 0;
    while i < frames.len()
        invariant
            i <= frames@.len(),
            ppn_base.0 == base_frame(frames@.take(i as int)),
            i > 0 ==> ppn_base == frames@[0],
            forall|j: int| 0 <= j < i ==> (#[trigger] frames@[j]).0 == frames@[0].0 + j,
        decreases frames@.len() - i,
    {
        let frame = frames[i];
        if i == 0 {
            ppn_base = frame;
        }
        if frame.0 < ppn_base.0 || frame.0 - ppn_base.0 != i {
            return None;
        }
        i += 1;
    }
    assert(frames@.take(i as int) =~= frames@);
    if ppn_base.0 > usize::MAX / PAGE_SIZE {
        return None;
    }
    Some(PhysAddr(ppn_base.0 * PAGE_SIZE))
}

/// The frames that a release of `pages` pages at `pa` covers, lowest first.
pub fn virtio_dma_dealloc(pa: PhysAddr, pages: usize) -> (frames: Vec<PhysPageNum>)
    requires
        pa.0 / PAGE_SIZE + pages <= usize::MAX,
    ensures
        frames@ == frames_from(pa, pages as nat),
{
    let mut ppn_base = PhysPageNum(pa.0 / PAGE_SIZE);
    let mut frames: Vec<PhysPageNum> = Vec::new();
    let mut i: usize = 0;
    while i < pages
        invariant
            i <= pages,
            pa.0 / PAGE_SIZE + pages <= usize::MAX,
            ppn_base.0 == pa.0 / PAGE_SIZE + i,
            frames@ == frames_from(pa, i as nat),
        decreases pages - i,
    {
        frames.push(ppn_base);
        ppn_base = PhysPageNum(ppn_base.0 + 1);
        i += 1;
        assert(frames@ =~= frames_from(pa, i as nat));
    }
    frames
}

/// A release by the base address and the page count of a run covers the
/// frames of that run, each once and in their order.
pub proof fn lemma_release_covers_run(frames: Seq<PhysPageNum>, pa: PhysAddr)
    requires
        frames.len() > 0,
        is_contiguous(frames),
        pa.0 == base_frame(frames) * PAGE_SIZE,
    ensures
        frames_from(pa, frames.len()) == frames,
{
    assert(pa.0 / PAGE_SIZE == base_frame(frames));
    assert(frames_from(pa, frames.len()) =~= frames);
}

/// The virtual address at which the kernel sees the physical address
/// `paddr`: the kernel maps physical memory at the same addresses.
pub fn virtio_phys_to_virt(paddr: PhysAddr) -> (vaddr: VirtAddr)
    ensures
        vaddr.0 == paddr.0,
{
    VirtAddr(paddr.0)
}

} // verus!
