use rstream::pagination::{get_offset_and_limit, paginate, Limit, Pagination, Window};

#[test]
fn offset_is_page_times_per_page() {
    let w = get_offset_and_limit(&Pagination { page: Some(3), per_page: Some(10) });
    assert_eq!(w, Window { offset: 30, limit: Limit::AtMost(10) });
}

#[test]
fn missing_part_selects_everything() {
    let w = get_offset_and_limit(&Pagination { page: Some(3), per_page: None });
    assert_eq!(w, Window { offset: 0, limit: Limit::Unbounded });
    let w = get_offset_and_limit(&Pagination { page: None, per_page: Some(5) });
    assert_eq!(w, Window { offset: 0, limit: Limit::Unbounded });
}

#[test]
fn largest_page_request_does_not_overflow() {
    let w = get_offset_and_limit(&Pagination { page: Some(u32::MAX), per_page: Some(u32::MAX) });
    assert_eq!(w.offset, 18446744065119617025u64);
    assert_eq!(w.limit, Limit::AtMost(u32::MAX));
}

#[test]
fn page_is_clipped_to_the_items() {
    let items: Vec<u32> = vec![0, 1, 2, 3, 4, 5, 6];
    assert_eq!(paginate(&items, Some(0), Some(3)), &[0, 1, 2]);
    assert_eq!(paginate(&items, Some(1), Some(3)), &[3, 4, 5]);
    assert_eq!(paginate(&items, Some(2), Some(3)), &[6]);
    assert_eq!(paginate(&items, Some(3), Some(3)), &[] as &[u32]);
    assert_eq!(paginate(&items, Some(100), Some(100)), &[] as &[u32]);
    assert_eq!(paginate(&items, None, None), &items[..]);
    assert_eq!(paginate(&items, Some(1), None), &items[..]);
    assert_eq!(paginate(&items, Some(2), Some(0)), &[] as &[u32]);
}
