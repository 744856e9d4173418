use totris::{Coordinate, GridIncrement, Offset};

#[test]
fn grid_inc_walks_rows() {
    let mut c = Coordinate::new(8, 3);
    c.grid_inc();
    assert_eq!(c, Coordinate::new(9, 3));
    c.grid_inc();
    assert_eq!(c, Coordinate::new(0, 4));
    assert_eq!(Coordinate::new(9, 0).grid_incd(), Coordinate::new(0, 1));
    assert_eq!(Coordinate::origin().grid_incd(), Coordinate::new(1, 0));
}

#[test]
fn offsets_build() {
    assert_eq!(Offset::zero(), Offset::new(0, 0));
    assert_eq!(Offset::new(-3, 7).x, -3);
}
