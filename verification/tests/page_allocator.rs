use coop_kernel::allocator::{PageAllocator, PAGE_SIZE};

// The managed range is shrunk to page boundaries and the page count
// follows from the aligned bounds.
#[test]
fn new_computes_page_count_from_aligned_bounds() {
    // start is 123 bytes past a page boundary, so the first partial page is
    // dropped; the end is cut down to a boundary as well.
    let start = 5 * PAGE_SIZE + 123;
    let size = 10 * PAGE_SIZE;
    let mut pa = PageAllocator::new(start, size);
    // aligned range is [6 * PAGE_SIZE, 15 * PAGE_SIZE): 9 pages, the first
    // of which backs the used-flags and is never handed out.
    assert_eq!(pa.page_addr(0), 6 * PAGE_SIZE);
    assert_eq!(pa.page_addr(1), 7 * PAGE_SIZE);
    // 8 pages are allocatable; the reserved page's address never shows up.
    let mut seen = Vec::new();
    for _ in 0..8 {
        let page = pa.get_page().expect("a free page should be left");
        let addr = page.addr();
        assert_ne!(addr, 6 * PAGE_SIZE);
        assert!(addr >= 7 * PAGE_SIZE && addr < 15 * PAGE_SIZE);
        seen.push(addr);
    }
    assert!(pa.get_page().is_none());
    // no double allocation: all returned addresses are distinct.
    for i in 0..seen.len() {
        for j in 0..i {
            assert_ne!(seen[i], seen[j]);
        }
    }
}

#[test]
fn exact_page_range_needs_no_shrinking() {
    let mut pa = PageAllocator::new(16 * PAGE_SIZE, 4 * PAGE_SIZE);
    // 4 pages, one reserved for the flags.
    assert_eq!(pa.page_addr(0), 16 * PAGE_SIZE);
    let a = pa.get_page().unwrap().addr();
    let b = pa.get_page().unwrap().addr();
    let c = pa.get_page().unwrap().addr();
    assert_eq!(a, 17 * PAGE_SIZE);
    assert_eq!(b, 18 * PAGE_SIZE);
    assert_eq!(c, 19 * PAGE_SIZE);
    assert!(pa.get_page().is_none());
}

#[test]
fn contiguous_window_is_first_fitting_and_marked() {
    let mut pa = PageAllocator::new(0, 9 * PAGE_SIZE);
    // page 0 is reserved; pages 1..=8 free.
    let w = pa.get_n_pages(3).expect("window of 3 exists");
    assert_eq!(w, PAGE_SIZE); // pages 1, 2, 3
    let single = pa.get_page().unwrap().addr();
    assert_eq!(single, 4 * PAGE_SIZE);
    // only pages 5..=8 are free now: no window of 5, but one of 4.
    assert!(pa.get_n_pages(5).is_none());
    let w2 = pa.get_n_pages(4).expect("window of 4 exists");
    assert_eq!(w2, 5 * PAGE_SIZE);
    assert!(pa.get_page().is_none());
}

#[test]
fn contiguous_request_larger_than_range_fails() {
    let mut pa = PageAllocator::new(0, 4 * PAGE_SIZE);
    assert!(pa.get_n_pages(100).is_none());
    // and the failure changed nothing: a fitting request still succeeds.
    assert!(pa.get_n_pages(3).is_some());
}
