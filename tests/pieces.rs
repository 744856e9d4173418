use totris::{Coordinate, Kind, Offset, Piece, RotateKind, Rotation, SrsPlus};

fn piece(kind: Kind, x: isize, y: isize, rotation: Rotation) -> Piece {
    Piece { kind, position: Offset::new(x, y), rotation }
}

#[test]
fn test_cells_o() {
    let piece = Piece { kind: Kind::O, position: Offset::zero(), rotation: Rotation::N };

    let cells = piece.cells().expect("Should be a valid O piece");
    assert_eq!(
        cells,
        vec![
            Coordinate::new(0, 0),
            Coordinate::new(1, 0),
            Coordinate::new(0, 1),
            Coordinate::new(1, 1),
        ]
    );
}

#[test]
#[should_panic]
fn test_cells_i() {
    let piece = Piece { kind: Kind::I, position: Offset::zero(), rotation: Rotation::N };
    let _ = piece.cells().unwrap();
}

#[test]
fn positioning_z_west() {
    let cells = piece(Kind::Z, 5, 6, Rotation::W).cells().unwrap();
    assert_eq!(
        cells,
        vec![Coordinate::new(4, 5), Coordinate::new(4, 6), Coordinate::new(5, 6), Coordinate::new(5, 7)]
    );
}

#[test]
fn positioning_l_south() {
    let cells = piece(Kind::L, 8, 2, Rotation::S).cells().unwrap();
    assert_eq!(
        cells,
        vec![Coordinate::new(9, 2), Coordinate::new(8, 2), Coordinate::new(7, 2), Coordinate::new(7, 1)]
    );
}

#[test]
fn positioning_i_all_states() {
    assert_eq!(
        piece(Kind::I, 5, 5, Rotation::N).cells().unwrap(),
        vec![Coordinate::new(4, 5), Coordinate::new(5, 5), Coordinate::new(6, 5), Coordinate::new(7, 5)]
    );
    assert_eq!(
        piece(Kind::I, 5, 5, Rotation::E).cells().unwrap(),
        vec![Coordinate::new(6, 6), Coordinate::new(6, 5), Coordinate::new(6, 4), Coordinate::new(6, 3)]
    );
    assert_eq!(
        piece(Kind::I, 5, 5, Rotation::S).cells().unwrap(),
        vec![Coordinate::new(7, 4), Coordinate::new(6, 4), Coordinate::new(5, 4), Coordinate::new(4, 4)]
    );
    assert_eq!(
        piece(Kind::I, 5, 5, Rotation::W).cells().unwrap(),
        vec![Coordinate::new(5, 3), Coordinate::new(5, 4), Coordinate::new(5, 5), Coordinate::new(5, 6)]
    );
}

#[test]
fn cells_out_of_columns_do_not_resolve() {
    assert!(piece(Kind::T, 9, 5, Rotation::N).cells().is_none());
    assert!(piece(Kind::T, 0, 5, Rotation::N).cells().is_none());
    assert!(piece(Kind::T, 5, 0, Rotation::S).cells().is_none());
    assert!(piece(Kind::T, 5, 40, Rotation::N).cells().is_some());
    assert_eq!(
        piece(Kind::T, 5, 2_000_000, Rotation::N).cells().unwrap(),
        vec![
            Coordinate::new(4, 2_000_000),
            Coordinate::new(5, 2_000_000),
            Coordinate::new(6, 2_000_000),
            Coordinate::new(5, 2_000_001),
        ]
    );
    assert!(piece(Kind::T, isize::MAX, 0, Rotation::N).cells().is_none());
    assert_eq!(piece(Kind::I, 4, isize::MAX, Rotation::E).cells().unwrap()[0].y, isize::MAX as usize + 1);
}

#[test]
fn rotated_by_steps_through_the_cycle() {
    let p = piece(Kind::I, 0, 0, Rotation::N);
    assert_eq!(p.rotated_by(RotateKind::Clockwise), piece(Kind::I, 0, 0, Rotation::E));
    assert_eq!(p.rotated_by(RotateKind::CounterClockwise), piece(Kind::I, 0, 0, Rotation::W));
    let s = piece(Kind::I, 0, 0, Rotation::S);
    assert_eq!(s.rotated_by(RotateKind::CounterClockwise), piece(Kind::I, 0, 0, Rotation::E));
}

#[test]
fn moved_by_shifts_only() {
    let p = piece(Kind::J, 3, 7, Rotation::E);
    assert_eq!(p.moved_by(Offset::new(-2, 5)), piece(Kind::J, 1, 12, Rotation::E));
}

#[test]
fn new_piece_spawns_centered_at_the_top() {
    assert_eq!(Piece::new(Kind::T), piece(Kind::T, 5, 18, Rotation::N));
    assert_eq!(Piece::new(Kind::I), piece(Kind::I, 4, 18, Rotation::N));
    assert_eq!(Piece::new(Kind::O), piece(Kind::O, 4, 18, Rotation::N));
    assert_eq!(piece(Kind::S, 1, 1, Rotation::W).reset(), piece(Kind::S, 5, 18, Rotation::N));
}

#[test]
fn o_rotation_never_changes_cells() {
    let start = piece(Kind::O, 3, 4, Rotation::N);
    let expected = start.cells().unwrap();
    for kind in [RotateKind::Clockwise, RotateKind::CounterClockwise] {
        let mut p = start;
        for _ in 0..9 {
            p = p.rotated_by(kind);
            assert_eq!(p.cells().unwrap(), expected);
        }
    }
}

#[test]
fn four_rotations_restore_cells() {
    for kind in [Kind::T, Kind::S, Kind::Z, Kind::J, Kind::L] {
        for dir in [RotateKind::Clockwise, RotateKind::CounterClockwise] {
            let start = piece(kind, 4, 4, Rotation::N);
            let mut p = start;
            for _ in 0..4 {
                p = p.rotated_by(dir);
            }
            assert_eq!(p.cells().unwrap(), start.cells().unwrap());
            assert_ne!(start.rotated_by(dir).cells().unwrap(), start.cells().unwrap());
        }
    }
}

#[test]
fn rotation_add_cycles() {
    assert_eq!(Rotation::W.add(RotateKind::Clockwise), Rotation::N);
    assert_eq!(Rotation::N.add(RotateKind::CounterClockwise), Rotation::W);
    assert_eq!(Rotation::E.add(RotateKind::Clockwise), Rotation::S);
}

#[test]
fn kind_colors() {
    assert_eq!(Kind::I.color(), totris::Color::Cyan);
    assert_eq!(Kind::O.color(), totris::Color::Yellow);
    assert_eq!(Kind::T.color(), totris::Color::Purple);
    assert_eq!(Kind::S.color(), totris::Color::Green);
    assert_eq!(Kind::Z.color(), totris::Color::Red);
    assert_eq!(Kind::J.color(), totris::Color::Blue);
    assert_eq!(Kind::L.color(), totris::Color::Orange);
}

#[test]
fn test_std_kicks() {
    assert_eq!(
        SrsPlus::new(Kind::J, Rotation::N, RotateKind::Clockwise).get_kicks(),
        vec![Offset::new(-1, 0), Offset::new(-1, 1), Offset::new(0, -2), Offset::new(-1, -2)]
    );
    assert_eq!(
        SrsPlus::new(Kind::J, Rotation::E, RotateKind::CounterClockwise).get_kicks(),
        vec![Offset::new(1, 0), Offset::new(1, -1), Offset::new(0, 2), Offset::new(1, 2)]
    );
}

#[test]
fn std_kicks_counter_clockwise_flip_destination_row() {
    assert_eq!(
        SrsPlus::new(Kind::T, Rotation::N, RotateKind::CounterClockwise).get_kicks(),
        vec![Offset::new(1, 0), Offset::new(1, 1), Offset::new(0, -2), Offset::new(1, -2)]
    );
    assert_eq!(
        SrsPlus::new(Kind::L, Rotation::S, RotateKind::Clockwise).get_kicks(),
        vec![Offset::new(1, 0), Offset::new(1, 1), Offset::new(0, -2), Offset::new(1, -2)]
    );
}

#[test]
fn i_kicks_match_table() {
    assert_eq!(
        SrsPlus::new(Kind::I, Rotation::N, RotateKind::Clockwise).get_kicks(),
        vec![Offset::new(-2, 0), Offset::new(1, 0), Offset::new(1, 2), Offset::new(-2, -1)]
    );
    assert_eq!(
        SrsPlus::new(Kind::I, Rotation::W, RotateKind::CounterClockwise).get_kicks(),
        vec![Offset::new(1, 0), Offset::new(-2, 0), Offset::new(1, 2), Offset::new(-2, -1)]
    );
    assert_eq!(
        SrsPlus::new(Kind::I, Rotation::E, RotateKind::CounterClockwise).get_kicks(),
        vec![Offset::new(2, 0), Offset::new(-1, 0), Offset::new(2, 1), Offset::new(-1, -2)]
    );
}

#[test]
fn o_kicks_are_a_single_zero() {
    assert_eq!(
        SrsPlus::new(Kind::O, Rotation::S, RotateKind::Clockwise).get_kicks(),
        vec![Offset::zero()]
    );
}

#[test]
fn i_rotation_north_to_east_cells() {
    let p = piece(Kind::I, 4, 5, Rotation::N).rotated_by(RotateKind::Clockwise);
    assert_eq!(
        p.cells().unwrap(),
        vec![Coordinate::new(5, 6), Coordinate::new(5, 5), Coordinate::new(5, 4), Coordinate::new(5, 3)]
    );
}

#[test]
fn default_cells_are_the_shape() {
    let p = piece(Kind::S, 7, 7, Rotation::E);
    assert_eq!(
        p.default_cells(),
        vec![Offset::new(-1, 0), Offset::new(0, 0), Offset::new(0, 1), Offset::new(1, 1)]
    );
}
