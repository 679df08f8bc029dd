use rjango::paginator::Paginator;

#[test]
fn test_paginator_basic() {
        let p = Paginator::new(100, 10);
        assert_eq!(p.num_pages(), 10);
        let page = p.page(1).unwrap();
        assert!(!page.has_previous);
        assert!(page.has_next);
        assert_eq!(page.start_index, 0);
        assert_eq!(page.end_index, 10);
    }

#[test]
fn test_paginator_partial() {
        let p = Paginator::new(95, 10);
        assert_eq!(p.num_pages(), 10);
        let last = p.page(10).unwrap();
        assert_eq!(last.start_index, 90);
        assert_eq!(last.end_index, 95);
    }

#[test]
fn test_paginator_invalid() {
        let p = Paginator::new(10, 5);
        assert!(p.page(0).is_err());
        assert!(p.page(3).is_err());
    }

#[test]
fn test_empty() {
        let p = Paginator::new(0, 10);
        assert_eq!(p.num_pages(), 0);
        assert!(p.page(1).is_ok()); // allow_empty_first_page = true
    }

#[test]
fn test_empty_disallow() {
        let p = Paginator::new(0, 10).allow_empty_first_page(false);
        assert_eq!(p.num_pages(), 0);
        // When allow_empty_first_page is false, page 1 is invalid for empty
        assert!(p.page_range().is_empty());
    }

#[test]
fn test_num_pages_single() {
        let p = Paginator::new(1, 10);
        assert_eq!(p.num_pages(), 1);
        let page = p.page(1).unwrap();
        assert!(!page.has_next);
        assert!(!page.has_previous);
    }

#[test]
fn test_orphans_merge_last_page() {
        let p = Paginator::new(21, 10).orphans(2);
        // Without orphans: 3 pages (10, 10, 1). With orphans(2): last page has 1 <= 2 → merged
        assert_eq!(p.num_pages(), 2);
        // Page 1: 10 items, Page 2: 11 items (1+3 merged)
        assert_eq!(p.page_items_count(2), Some(11));
    }

#[test]
fn test_orphans_no_merge() {
        let p = Paginator::new(23, 10).orphans(2);
        // Last page has 3 items, which is > orphans(2), so keep 3 pages
        assert_eq!(p.num_pages(), 3);
    }

#[test]
fn test_page_range() {
        let p = Paginator::new(50, 10);
        assert_eq!(p.page_range(), vec![1, 2, 3, 4, 5]);
    }

#[test]
fn test_page_range_empty() {
        let p = Paginator::new(0, 10);
        assert!(p.page_range().is_empty());
    }

#[test]
fn test_page_end_index() {
        let p = Paginator::new(33, 10);
        let last = p.page(4).unwrap();
        assert_eq!(last.start_index, 30);
        assert_eq!(last.end_index, 33);
    }

#[test]
fn test_count_and_per_page() {
        let p = Paginator::new(42, 7);
        assert_eq!(p.count(), 42);
        assert_eq!(p.per_page(), 7);
    }

#[test]
fn paginator_orphans_merge_into_single_page() {
    let p = Paginator::new(12, 10).orphans(2);
    assert_eq!(p.num_pages(), 1);
    let page = p.page(1).unwrap();
    assert_eq!(page.start_index, 0);
    assert_eq!(page.end_index, 12);
    assert_eq!(p.page_items_count(1), Some(12));
}

#[test]
fn paginator_orphans_unmerged_last_page() {
    let p = Paginator::new(23, 10).orphans(2);
    let last = p.page(3).unwrap();
    assert_eq!((last.number, last.start_index, last.end_index), (3, 20, 23));
    assert!(last.has_previous && !last.has_next);
    assert_eq!(p.page_items_count(3), Some(3));
}

#[test]
fn paginator_empty_pages_refused() {
    let p = Paginator::new(0, 10);
    assert!(p.page(2).is_err());
    let q = Paginator::new(0, 10).allow_empty_first_page(false);
    assert!(q.page(1).is_err());
    assert_eq!(q.page(1).unwrap_err(), "Page 1 out of range (1-0)");
}

#[test]
fn paginator_out_of_range_message() {
    let p = Paginator::new(10, 5);
    assert_eq!(p.page(3).unwrap_err(), "Page 3 out of range (1-2)");
}
