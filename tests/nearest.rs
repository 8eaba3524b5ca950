use rusttracing::nearest::nearest_hit;

#[test]
fn nearest_hit_picks_the_smallest_distance() {
    assert_eq!(nearest_hit(&vec![Some(30), None, Some(10), Some(20)]), Some(2));
    assert_eq!(nearest_hit(&vec![Some(5)]), Some(0));
}

#[test]
fn nearest_hit_skips_misses_and_reports_none() {
    assert_eq!(nearest_hit(&vec![None, None]), None);
    assert_eq!(nearest_hit(&vec![]), None);
    assert_eq!(nearest_hit(&vec![None, Some(u64::MAX)]), Some(1));
}

#[test]
fn nearest_hit_prefers_the_first_of_equal_distances() {
    assert_eq!(nearest_hit(&vec![Some(7), Some(3), None, Some(3)]), Some(1));
}

#[test]
fn float_distances_order_by_their_bits() {
    let d = [4.0f64, 0.01, 2.5, 1e9];
    let keys = d.iter().map(|x| Some(x.to_bits())).collect();
    assert_eq!(nearest_hit(&keys), Some(1));
}
