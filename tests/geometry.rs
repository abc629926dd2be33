use dngopcode::geometry::{crop, Dim2, Point, Rect};

#[test]
fn dim_and_point() {
    assert!(Dim2::new(0, 0).is_empty());
    assert!(!Dim2::new(0, 1).is_empty());
    assert_eq!(Point::zero(), Point::new(0, 0));
}

#[test]
fn rect_from_points_and_borders() {
    let r = Rect::new_with_points(Point::new(2, 3), Point::new(10, 7));
    assert_eq!(r.d, Dim2::new(8, 4));
    assert_eq!(r.as_ltrb(), [2, 3, 10, 7]);
    assert_eq!(r.as_tlbr(), [3, 2, 7, 10]);
    let b = Rect::new_with_borders(Dim2::new(100, 50), &[1, 2, 3, 4]);
    assert_eq!(b.p, Point::new(1, 2));
    assert_eq!(b.d, Dim2::new(96, 44));
    assert!(!b.is_empty());
    assert!(Rect::new(Point::new(5, 5), Dim2::new(0, 0)).is_empty());
}

#[test]
fn crop_takes_rows_and_columns() {
    let input: Vec<u32> = (0..20).collect();
    let area = Rect::new(Point::new(1, 1), Dim2::new(2, 2));
    assert_eq!(crop(&input, Dim2::new(5, 4), area), vec![6, 7, 11, 12]);
}

#[test]
fn crop_stops_at_last_whole_row() {
    let input: Vec<u32> = (0..13).collect();
    let area = Rect::new(Point::new(0, 1), Dim2::new(3, 5));
    assert_eq!(crop(&input, Dim2::new(4, 4), area), vec![4, 5, 6, 8, 9, 10]);
    let below = Rect::new(Point::new(0, 7), Dim2::new(3, 5));
    assert!(crop(&input, Dim2::new(4, 4), below).is_empty());
}
