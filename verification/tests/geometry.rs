use cursive::geometry::Vec2;

#[test]
fn saturating_sub_stops_at_zero() {
    let size = Vec2::new(80, 24);
    assert_eq!(size.saturating_sub(Vec2::new(0, 1)), Vec2::new(80, 23));
    assert_eq!(Vec2::new(3, 0).saturating_sub(Vec2::new(5, 1)), Vec2::zero());
    assert_eq!(Vec2::new(5, 7).saturating_sub(Vec2::new(5, 2)), Vec2::new(0, 5));
}

#[test]
fn saturating_add_stops_at_max() {
    assert_eq!(Vec2::new(1, 2).saturating_add(Vec2::new(3, 4)), Vec2::new(4, 6));
    assert_eq!(
        Vec2::new(usize::MAX, 1).saturating_add(Vec2::new(1, 1)),
        Vec2::new(usize::MAX, 2)
    );
}

#[test]
fn min_and_max_work_by_component() {
    let a = Vec2::new(3, 9);
    let b = Vec2::new(5, 2);
    assert_eq!(a.min(b), Vec2::new(3, 2));
    assert_eq!(a.max(b), Vec2::new(5, 9));
}

#[test]
fn fits_in_compares_both_components() {
    assert!(Vec2::new(3, 2).fits_in(Vec2::new(3, 2)));
    assert!(Vec2::new(0, 0).fits_in(Vec2::new(0, 0)));
    assert!(!Vec2::new(4, 2).fits_in(Vec2::new(3, 9)));
    assert!(!Vec2::new(1, 3).fits_in(Vec2::new(9, 2)));
}

#[test]
fn sub_then_add_round_trips_inside() {
    let p = Vec2::new(10, 4);
    let d = Vec2::new(3, 4);
    assert_eq!(p.saturating_sub(d).saturating_add(d), p);
}
