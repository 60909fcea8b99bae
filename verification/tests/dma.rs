use os_core::dma::{
    virtio_dma_alloc, virtio_dma_dealloc, virtio_phys_to_virt, PhysAddr, PhysPageNum, VirtAddr,
    PAGE_SIZE, PAGE_SIZE_BITS,
};

#[test]
fn page_size_is_four_kilobytes() {
    assert_eq!(PAGE_SIZE, 4096);
    assert_eq!(PAGE_SIZE_BITS, 12);
    assert_eq!(1usize << PAGE_SIZE_BITS, PAGE_SIZE);
}

#[test]
fn contiguous_frames_give_the_base_address() {
    let frames = [PhysPageNum(5), PhysPageNum(6), PhysPageNum(7)];
    assert_eq!(virtio_dma_alloc(&frames), Some(PhysAddr(5 * 4096)));
}

#[test]
fn one_frame_gives_its_address() {
    assert_eq!(virtio_dma_alloc(&[PhysPageNum(0x80200)]), Some(PhysAddr(0x8020_0000)));
}

#[test]
fn no_frames_give_address_zero() {
    assert_eq!(virtio_dma_alloc(&[]), Some(PhysAddr(0)));
}

#[test]
fn gap_between_frames_is_refused() {
    assert_eq!(virtio_dma_alloc(&[PhysPageNum(5), PhysPageNum(7)]), None);
    assert_eq!(virtio_dma_alloc(&[PhysPageNum(5), PhysPageNum(6), PhysPageNum(8)]), None);
}

#[test]
fn frames_in_falling_order_are_refused() {
    assert_eq!(virtio_dma_alloc(&[PhysPageNum(6), PhysPageNum(5)]), None);
    assert_eq!(virtio_dma_alloc(&[PhysPageNum(6), PhysPageNum(6)]), None);
}

#[test]
fn run_beyond_the_address_space_is_refused() {
    let last = usize::MAX / PAGE_SIZE;
    assert_eq!(virtio_dma_alloc(&[PhysPageNum(last)]), Some(PhysAddr(last * PAGE_SIZE)));
    assert_eq!(virtio_dma_alloc(&[PhysPageNum(last + 1)]), None);
    assert_eq!(virtio_dma_alloc(&[PhysPageNum(usize::MAX)]), None);
}

#[test]
fn release_covers_each_frame_of_the_run() {
    assert_eq!(
        virtio_dma_dealloc(PhysAddr(5 * 4096), 3),
        vec![PhysPageNum(5), PhysPageNum(6), PhysPageNum(7)]
    );
}

#[test]
fn release_of_no_pages_covers_nothing() {
    assert_eq!(virtio_dma_dealloc(PhysAddr(5 * 4096), 0), Vec::<PhysPageNum>::new());
}

#[test]
fn release_starts_at_the_frame_that_holds_the_address() {
    assert_eq!(virtio_dma_dealloc(PhysAddr(2 * 4096 + 17), 2), vec![PhysPageNum(2), PhysPageNum(3)]);
}

#[test]
fn release_matches_what_was_taken() {
    let frames: Vec<PhysPageNum> = (100..116).map(PhysPageNum).collect();
    let base = virtio_dma_alloc(&frames).unwrap();
    assert_eq!(virtio_dma_dealloc(base, frames.len()), frames);
}

#[test]
fn kernel_sees_physical_memory_at_the_same_address() {
    assert_eq!(virtio_phys_to_virt(PhysAddr(0x8765_4000)), VirtAddr(0x8765_4000));
    assert_eq!(virtio_phys_to_virt(PhysAddr(0)), VirtAddr(0));
}
