use overstory::index::{Aabb2D, Backend, FlatVec, SubtreeFilter, SubtreeSummary};

fn rect(x0: i64, y0: i64, x1: i64, y1: i64) -> Aabb2D<i64> {
    Aabb2D::new(x0, y0, x1, y1)
}

#[test]
fn flat_vec_point_and_rect_queries() {
    let mut index: FlatVec<i64> = FlatVec::new();
    index.insert(0, rect(0, 0, 10, 10));
    index.insert(3, rect(5, 5, 20, 20));
    assert_eq!(index.total_slots(), 4);
    assert_eq!(index.alive(), 2);
    assert_eq!(index.query_point(7, 7), vec![0, 3]);
    assert_eq!(index.query_point(15, 15), vec![3]);
    assert_eq!(index.query_point(-1, 0), Vec::<usize>::new());
    assert_eq!(index.query_rect(rect(11, 0, 12, 4)), Vec::<usize>::new());
    assert_eq!(index.query_rect(rect(10, 10, 12, 12)), vec![0, 3]);
}

#[test]
fn flat_vec_update_remove_clear() {
    let mut index: FlatVec<i64> = FlatVec::new();
    index.insert(1, rect(0, 0, 1, 1));
    index.update(1, rect(100, 100, 101, 101));
    assert_eq!(index.query_point(0, 0), Vec::<usize>::new());
    assert_eq!(index.query_point(100, 100), vec![1]);
    index.update(9, rect(0, 0, 1, 1));
    assert_eq!(index.total_slots(), 2);
    index.remove(1);
    assert_eq!(index.alive(), 0);
    index.remove(42);
    index.insert(0, rect(0, 0, 1, 1));
    index.clear();
    assert_eq!(index.total_slots(), 0);
}

#[test]
fn filtered_queries_ignore_the_filter_by_default() {
    let mut index: FlatVec<i64> = FlatVec::new();
    index.insert(0, rect(0, 0, 10, 10));
    index.set_summary(0, ());
    assert_eq!(index.query_point_filtered(1, 1, &0u8, &()), vec![0]);
    assert_eq!(index.query_rect_filtered(rect(0, 0, 1, 1), &0u8, &()), vec![0]);
}

#[test]
fn boxes_intersect_and_contain_inclusively() {
    let a = rect(0, 0, 10, 10);
    assert!(a.contains_point(10, 10));
    assert!(!a.contains_point(11, 10));
    let overlap = a.intersect(&rect(5, -5, 15, 5));
    assert_eq!((overlap.min_x, overlap.min_y, overlap.max_x, overlap.max_y), (5, 0, 10, 5));
    assert!(a.intersect(&rect(20, 20, 30, 30)).is_empty());
}

#[test]
fn bitmask_summaries_and_filters() {
    assert_eq!(<u64 as SubtreeSummary>::empty(), 0);
    assert_eq!(<u64 as SubtreeSummary>::combine(0b0101, 0b0010), 0b0111);
    let filter = ();
    assert!(SubtreeFilter::<u64, u64>::may_contain(&filter, &0b0110, &0b0010));
    assert!(!SubtreeFilter::<u64, u64>::may_contain(&filter, &0b0100, &0b0011));
    assert!(SubtreeFilter::<(), u32>::may_contain(&filter, &(), &7));
}
