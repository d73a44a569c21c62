use coop_kernel::allocator::{PageAllocator, PAGE_SIZE};
use coop_kernel::heap::{heap_init, size_align, Allocator, AllocatorInner, FreeRegion};

#[test]
fn size_align_pads_to_node_requirements() {
    // alignment is raised to 8 and the size padded to a multiple of it,
    // with a floor of one free-list node (16 bytes).
    assert_eq!(size_align(50, 1), (56, 8));
    assert_eq!(size_align(1, 1), (16, 8));
    assert_eq!(size_align(16, 8), (16, 8));
    assert_eq!(size_align(17, 16), (32, 16));
    assert_eq!(size_align(0, 64), (16, 64));
}

// First-fit: with regions [100, 200) and [300, 500) on the free list in
// that order, a request for 50 bytes is served from [100, 200), even
// though [300, 500) would also fit.
#[test]
fn first_fit_takes_the_earlier_region() {
    let mut inner = AllocatorInner::new();
    inner.add_free_region(300, 200);
    inner.add_free_region(100, 100);
    let (size2, align2) = size_align(50, 1);
    let (region, alloc_start) = inner
        .find_region(size2, align2)
        .expect("a region fits");
    assert_eq!(region.start_addr(), 100);
    assert_eq!(region.end_addr(), 200);
    assert!(alloc_start >= 100 && alloc_start + 50 <= 200);
    assert!(!(300..500).contains(&alloc_start));
}

// The same policy through the public allocation path.
#[test]
fn allocate_is_first_fit_and_splits() {
    let mut heap = Allocator::new();
    heap.init(300, 200); // free region [300, 500)
    heap.deallocate(100, 96, 1); // pushes [100, 196) to the front
    let a = heap.allocate(50, 1).expect("first region fits");
    // served from the front region, not from [300, 500)
    assert_eq!(a, 104); // 100 aligned up to 8
    // the 36-byte tail [160, 196) became a free node at the front:
    // a small request is served from it.
    let b = heap.allocate(20, 1).expect("tail region fits");
    assert_eq!(b, 160);
}

// Split correctness: allocating from a 200-byte region leaves the
// remainder as a new free region starting at the end of the allocation.
#[test]
fn split_leaves_remainder_at_alloc_end() {
    let mut heap = Allocator::new();
    heap.init(104, 200); // free region [104, 304)
    let a = heap.allocate(50, 1).expect("region fits");
    assert_eq!(a, 104);
    // adjusted size is 56, so the remainder [160, 304) (144 bytes, enough
    // for a node) is a new free region; the next allocation starts there.
    let b = heap.allocate(100, 1).expect("remainder fits");
    assert_eq!(b, 160);
}

// A remainder too small to carry a free-list node is fused into the
// allocation: no free region is left behind.
#[test]
fn sub_node_remainder_is_fused() {
    let mut heap = Allocator::new();
    heap.init(96, 60); // free region [96, 156)
    let a = heap.allocate(48, 1).expect("region fits");
    assert_eq!(a, 96);
    // 60 - 48 = 12 < 16: the tail is consumed, the list is empty.
    assert!(heap.allocate(16, 1).is_none());
}

// An allocation that consumes a region exactly leaves nothing behind.
#[test]
fn exact_fit_consumes_region() {
    let mut heap = Allocator::new();
    heap.init(96, 56);
    let a = heap.allocate(56, 1).expect("exact fit");
    assert_eq!(a, 96);
    assert!(heap.allocate(16, 1).is_none());
}

// Round trip: free an allocation and repeat the same request; the same
// address comes back.
#[test]
fn allocate_free_allocate_returns_same_address() {
    let mut heap = Allocator::new();
    heap.init(96, 160);
    let a = heap.allocate(50, 1).expect("fits");
    heap.deallocate(a, 50, 1);
    let b = heap.allocate(50, 1).expect("fits again");
    assert_eq!(a, b);
    // and with an alignment constraint:
    let c = heap.allocate(30, 16).expect("fits");
    heap.deallocate(c, 30, 16);
    let d = heap.allocate(30, 16).expect("fits again");
    assert_eq!(c, d);
}

#[test]
fn allocation_fails_only_without_a_fitting_region() {
    let mut heap = Allocator::new();
    assert!(heap.allocate(8, 1).is_none()); // nothing to allocate from
    heap.init(1000, 64);
    assert!(heap.allocate(100, 1).is_none()); // too big for the region
    assert!(heap.allocate(64, 1).is_some()); // fits exactly
}

#[test]
fn free_region_accessors() {
    let r = FreeRegion::new(128, 64);
    assert_eq!(r.start_addr(), 128);
    assert_eq!(r.end_addr(), 192);
}

// The heap draws whole pages from the page allocator and is seeded with
// one region spanning them.
#[test]
fn heap_init_draws_contiguous_pages() {
    let mut pa = PageAllocator::new(0, 4 * PAGE_SIZE);
    let mut heap = Allocator::new();
    // page 0 is reserved for the flags, so the heap starts at page 1; the
    // odd size is rounded down to two whole pages.
    let ok = heap_init(&mut pa, &mut heap, 2 * PAGE_SIZE + 12345);
    assert!(ok);
    let a = heap.allocate(64, 1).expect("fresh heap serves small blocks");
    assert_eq!(a, PAGE_SIZE);
    // the two heap pages are marked used: only one page is left.
    assert!(pa.get_n_pages(2).is_none());
    assert!(pa.get_page().is_some());
    assert!(pa.get_page().is_none());
}

#[test]
fn heap_init_fails_when_pages_are_gone() {
    let mut pa = PageAllocator::new(0, 4 * PAGE_SIZE);
    while pa.get_page().is_some() {}
    let mut heap = Allocator::new();
    let ok = heap_init(&mut pa, &mut heap, PAGE_SIZE);
    assert!(!ok);
    assert!(heap.allocate(16, 1).is_none());
}
