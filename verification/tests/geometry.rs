use stamp_desk::{fits, Rect, Size, Vec2};

fn rect(x: i64, y: i64, w: u64, h: u64) -> Rect {
    Rect::from_center_size(Vec2::new(x, y), Size::new(w, h))
}

#[test]
fn rect_keeps_center_and_size() {
    let r = rect(3, -4, 10, 20);
    assert_eq!(r.center, Vec2 { x: 3, y: -4 });
    assert_eq!(r.size, Size { width: 10, height: 20 });
}

#[test]
fn inner_rectangle_fits() {
    assert!(fits(rect(0, 0, 400, 400), rect(10, 10, 150, 100)));
}

#[test]
fn far_rectangle_does_not_fit() {
    assert!(!fits(rect(0, 0, 400, 400), rect(1000, 1000, 150, 100)));
}

#[test]
fn touching_edges_fit() {
    let outer = rect(0, 0, 400, 400);
    // right edges meet at x = 200
    assert!(fits(outer, rect(125, 0, 150, 100)));
    // left edges meet at x = -200
    assert!(fits(outer, rect(-125, 0, 150, 100)));
    // top edges meet at y = 200
    assert!(fits(outer, rect(0, 150, 150, 100)));
    // bottom edges meet at y = -200
    assert!(fits(outer, rect(0, -150, 150, 100)));
    // all four at once
    assert!(fits(outer, outer));
}

#[test]
fn one_unit_over_an_edge_does_not_fit() {
    let outer = rect(0, 0, 400, 400);
    assert!(!fits(outer, rect(126, 0, 150, 100)));
    assert!(!fits(outer, rect(-126, 0, 150, 100)));
    assert!(!fits(outer, rect(0, 151, 150, 100)));
    assert!(!fits(outer, rect(0, -151, 150, 100)));
}

#[test]
fn odd_sizes_are_compared_exactly() {
    // outer spans -2.5 ..= 2.5, inner spans -1.5 ..= 1.5 shifted by one
    let outer = rect(0, 0, 5, 5);
    assert!(fits(outer, rect(1, 0, 3, 3)));
    assert!(!fits(outer, rect(2, 0, 3, 3)));
    // half a unit too wide on each side
    assert!(!fits(rect(0, 0, 4, 4), rect(0, 0, 5, 1)));
}

#[test]
fn a_larger_rectangle_does_not_fit_a_smaller() {
    assert!(!fits(rect(0, 0, 50, 50), rect(0, 0, 100, 100)));
}

#[test]
fn containment_at_the_ends_of_the_number_range() {
    let outer = rect(i64::MAX, i64::MIN, u64::MAX, u64::MAX);
    let inner = rect(i64::MAX, i64::MIN, u64::MAX - 1, 0);
    assert!(fits(outer, inner));
    assert!(!fits(inner, outer));
    assert!(!fits(rect(i64::MIN, 0, 2, 2), rect(i64::MAX, 0, 2, 2)));
}

#[test]
fn a_point_on_the_edge_is_outside() {
    let r = rect(0, 0, 100, 100);
    assert!(r.contains_point(Vec2::new(0, 0)));
    assert!(r.contains_point(Vec2::new(49, -49)));
    assert!(!r.contains_point(Vec2::new(50, 0)));
    assert!(!r.contains_point(Vec2::new(-50, 0)));
    assert!(!r.contains_point(Vec2::new(0, 50)));
    assert!(!r.contains_point(Vec2::new(0, -50)));
    assert!(!r.contains_point(Vec2::new(51, 51)));
}

#[test]
fn a_point_inside_an_odd_rectangle() {
    // spans -1.5 .. 1.5
    let r = rect(0, 0, 3, 3);
    assert!(r.contains_point(Vec2::new(1, -1)));
    assert!(!r.contains_point(Vec2::new(2, 0)));
    // an empty rectangle surrounds nothing
    assert!(!rect(0, 0, 0, 0).contains_point(Vec2::new(0, 0)));
}

#[test]
fn checked_add_gives_the_sum() {
    assert_eq!(Vec2::new(1, 2).checked_add(Vec2::new(30, -40)), Some(Vec2 { x: 31, y: -38 }));
    let end = Vec2::new(i64::MAX, 0);
    assert_eq!(end.checked_add(Vec2::new(0, 0)), Some(Vec2 { x: i64::MAX, y: 0 }));
}

#[test]
fn checked_add_refuses_a_sum_out_of_range() {
    assert_eq!(Vec2::new(i64::MAX, 0).checked_add(Vec2::new(1, 0)), None);
    assert_eq!(Vec2::new(0, i64::MIN).checked_add(Vec2::new(0, -1)), None);
}

#[test]
fn checked_sub_gives_the_difference() {
    assert_eq!(Vec2::new(1, 2).checked_sub(Vec2::new(30, -40)), Some(Vec2 { x: -29, y: 42 }));
    let end = Vec2::new(i64::MAX, 0);
    assert_eq!(Vec2::new(-1, 0).checked_sub(end), Some(Vec2 { x: i64::MIN, y: 0 }));
}

#[test]
fn checked_sub_refuses_a_difference_out_of_range() {
    assert_eq!(Vec2::new(0, 0).checked_sub(Vec2::new(i64::MIN, 0)), None);
    assert_eq!(Vec2::new(0, -2).checked_sub(Vec2::new(0, i64::MAX)), None);
}
