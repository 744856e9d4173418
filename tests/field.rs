use totris::{Color, Coordinate, Engine, Kind, Matrix, MoveKind, Offset, Piece, RotateKind, Rotation, SrsPlus};

fn filled_rows(rows: &[usize]) -> Matrix {
    let mut m = Matrix::new();
    for &y in rows {
        for x in 0..10 {
            m.set(Coordinate::new(x, y), Some(Color::Red));
        }
    }
    m
}

fn occupied(engine: &Engine) -> Vec<(Coordinate, Color)> {
    engine
        .cells()
        .into_iter()
        .filter_map(|(c, cell)| cell.map(|color| (c, color)))
        .collect()
}

fn engine_with(matrix: Matrix, kinds: Vec<Kind>) -> Engine {
    let mut e = Engine::from_matrix(matrix);
    e.refill_bag_with(kinds);
    e
}

#[test]
fn coordinate_validity_is_the_ten_by_twenty_box() {
    assert!(Matrix::on_matrix(Coordinate::new(0, 0)));
    assert!(Matrix::on_matrix(Coordinate::new(9, 19)));
    assert!(!Matrix::on_matrix(Coordinate::new(10, 0)));
    assert!(!Matrix::on_matrix(Coordinate::new(0, 20)));
    assert!(!Matrix::on_matrix(Coordinate::new(10, 20)));
    assert!(Matrix::valid_coord(Coordinate::new(9, 500)));
    assert!(!Matrix::valid_coord(Coordinate::new(10, 0)));
}

#[test]
fn index_and_set_are_row_major() {
    let mut m = Matrix::new();
    m.set(Coordinate::new(3, 1), Some(Color::Blue));
    assert_eq!(m.index(Coordinate::new(3, 1)), Some(Color::Blue));
    assert_eq!(m.index(Coordinate::new(1, 3)), None);
    let lines = m.lines();
    assert_eq!(lines.len(), 20);
    assert_eq!(lines[1][3], Some(Color::Blue));
    assert_eq!(lines[0].iter().filter(|c| c.is_some()).count(), 0);
}

#[test]
fn placed_cells_clip_a_piece_on_the_same_cells() {
    let p = Piece { kind: Kind::T, position: Offset::new(4, 3), rotation: Rotation::E };
    let mut m = Matrix::new();
    assert!(!m.is_clipping(&p));
    assert!(m.is_placeable(&p));
    for c in p.cells().unwrap() {
        m.set(c, Some(Kind::T.color()));
    }
    assert!(m.is_clipping(&p));
    assert!(!m.is_placeable(&p));
}

#[test]
fn cells_off_the_field_clip() {
    let m = Matrix::new();
    let top = Piece { kind: Kind::O, position: Offset::new(4, 18), rotation: Rotation::N };
    assert!(!m.is_clipping(&top));
    assert!(m.is_placeable(&top));
    let high = Piece { kind: Kind::O, position: Offset::new(4, 19), rotation: Rotation::N };
    assert!(m.is_clipping(&high));
    assert!(!m.is_placeable(&high));
    let spawned = Piece::new(Kind::T);
    assert!(!m.is_clipping(&spawned));
    let left = Piece { kind: Kind::O, position: Offset::new(-1, 0), rotation: Rotation::N };
    assert!(m.is_clipping(&left));
}

#[test]
fn full_lines_lists_full_rows_ascending() {
    let mut m = filled_rows(&[5, 2, 7]);
    m.set(Coordinate::new(9, 7), None);
    assert_eq!(m.full_lines(), vec![2, 5]);
    assert_eq!(Matrix::new().full_lines(), Vec::<usize>::new());
}

#[test]
fn clear_lines_without_full_rows_is_a_no_op() {
    let mut m = Matrix::new();
    m.set(Coordinate::new(0, 0), Some(Color::Green));
    m.set(Coordinate::new(4, 7), Some(Color::Red));
    let lines = m.full_lines();
    assert!(lines.is_empty());
    m.clear_lines(&lines);
    assert_eq!(m.index(Coordinate::new(0, 0)), Some(Color::Green));
    assert_eq!(m.index(Coordinate::new(4, 7)), Some(Color::Red));
    let mut e = Engine::from_matrix(m);
    assert!(e.line_clear(|_: &[usize]| {}).is_empty());
    assert_eq!(occupied(&e).len(), 2);
}

#[test]
fn clear_rows_two_and_five_shifts_the_rest_down() {
    let mut m = filled_rows(&[2, 5]);
    // one marker in each band of rows
    m.set(Coordinate::new(1, 0), Some(Color::Blue));
    m.set(Coordinate::new(2, 3), Some(Color::Cyan));
    m.set(Coordinate::new(3, 4), Some(Color::Green));
    m.set(Coordinate::new(4, 6), Some(Color::Orange));
    m.set(Coordinate::new(5, 19), Some(Color::Purple));
    assert_eq!(m.full_lines(), vec![2, 5]);
    m.clear_lines(&[2, 5]);
    assert_eq!(m.index(Coordinate::new(1, 0)), Some(Color::Blue));
    assert_eq!(m.index(Coordinate::new(2, 2)), Some(Color::Cyan));
    assert_eq!(m.index(Coordinate::new(3, 3)), Some(Color::Green));
    assert_eq!(m.index(Coordinate::new(4, 4)), Some(Color::Orange));
    assert_eq!(m.index(Coordinate::new(5, 17)), Some(Color::Purple));
    let count = m.lines().iter().flatten().filter(|c| c.is_some()).count();
    assert_eq!(count, 5);
    for x in 0..10 {
        assert_eq!(m.index(Coordinate::new(x, 18)), None);
        assert_eq!(m.index(Coordinate::new(x, 19)), None);
    }
}

#[test]
fn cells_walk_the_field_in_row_major_order() {
    let mut m = Matrix::new();
    m.set(Coordinate::new(2, 0), Some(Color::Yellow));
    m.set(Coordinate::new(3, 1), Some(Color::Cyan));
    let e = Engine::from_matrix(m);
    let cells = e.cells();
    assert_eq!(cells.len(), 200);
    assert_eq!(
        cells[..5].to_vec(),
        vec![
            (Coordinate::new(0, 0), None),
            (Coordinate::new(1, 0), None),
            (Coordinate::new(2, 0), Some(Color::Yellow)),
            (Coordinate::new(3, 0), None),
            (Coordinate::new(4, 0), None),
        ]
    );
    assert_eq!(cells[13], (Coordinate::new(3, 1), Some(Color::Cyan)));
    assert!(cells[14..].iter().all(|(_, c)| c.is_none()));
    assert_eq!(cells[199].0, Coordinate::new(9, 19));
}

#[test]
fn add_cursor_draws_from_the_end_of_the_bag() {
    let mut e = engine_with(Matrix::new(), vec![Kind::T, Kind::I]);
    e.add_cursor();
    let (cells, color, kind, rotation) = e.cursor_info().unwrap();
    assert_eq!(kind, Kind::I);
    assert_eq!(color, Color::Cyan);
    assert_eq!(rotation, Rotation::N);
    assert_eq!(
        cells,
        vec![Coordinate::new(3, 18), Coordinate::new(4, 18), Coordinate::new(5, 18), Coordinate::new(6, 18)]
    );
}

#[test]
fn refilled_bag_holds_each_kind_once() {
    let mut e = Engine::new();
    let mut seen = Vec::new();
    for _ in 0..7 {
        e.add_cursor();
        seen.push(e.cursor_info().unwrap().2);
    }
    for k in [Kind::I, Kind::O, Kind::T, Kind::S, Kind::Z, Kind::J, Kind::L] {
        assert_eq!(seen.iter().filter(|&&s| s == k).count(), 1);
    }
}

#[test]
fn move_off_either_side_fails_and_keeps_the_piece() {
    let mut e = engine_with(Matrix::new(), vec![Kind::O]);
    e.add_cursor();
    for _ in 0..4 {
        assert_eq!(e.move_cursor(MoveKind::Left), Ok(()));
    }
    let before = e.cursor_info().unwrap().0;
    assert_eq!(before[0], Coordinate::new(0, 18));
    assert_eq!(e.move_cursor(MoveKind::Left), Err(()));
    assert_eq!(e.cursor_info().unwrap().0, before);
    for _ in 0..8 {
        assert_eq!(e.move_cursor(MoveKind::Right), Ok(()));
    }
    let before = e.cursor_info().unwrap().0;
    assert_eq!(before[1], Coordinate::new(9, 18));
    assert_eq!(e.move_cursor(MoveKind::Right), Err(()));
    assert_eq!(e.cursor_info().unwrap().0, before);
}

#[test]
fn move_without_cursor_is_ok() {
    let mut e = Engine::new();
    assert_eq!(e.move_cursor(MoveKind::Left), Ok(()));
    assert!(e.cursor_info().is_none());
}

#[test]
fn move_into_stack_fails() {
    let mut m = Matrix::new();
    m.set(Coordinate::new(3, 0), Some(Color::Red));
    let mut e = engine_with(m, vec![Kind::O]);
    e.add_cursor();
    e.hard_drop();
    assert_eq!(e.cursor_info().unwrap().0[0], Coordinate::new(4, 0));
    assert_eq!(e.move_cursor(MoveKind::Left), Err(()));
    assert_eq!(e.cursor_info().unwrap().0[0], Coordinate::new(4, 0));
}

#[test]
fn single_i_piece_drop_fills_four_bottom_cells() {
    let mut e = engine_with(Matrix::new(), vec![Kind::I]);
    e.add_cursor();
    e.hard_drop();
    assert!(e.cursor_has_hit_bottom());
    assert!(e.can_place_cursor());
    e.place_cursor();
    assert!(e.cursor_info().is_none());
    assert_eq!(
        occupied(&e),
        vec![
            (Coordinate::new(3, 0), Color::Cyan),
            (Coordinate::new(4, 0), Color::Cyan),
            (Coordinate::new(5, 0), Color::Cyan),
            (Coordinate::new(6, 0), Color::Cyan),
        ]
    );
    assert!(e.line_clear(|_: &[usize]| {}).is_empty());
    assert_eq!(occupied(&e).len(), 4);
}

#[test]
fn o_piece_completes_bottom_row() {
    let mut m = Matrix::new();
    for x in [0, 1, 2, 3, 6, 7, 8, 9] {
        m.set(Coordinate::new(x, 0), Some(Color::Red));
    }
    let mut e = engine_with(m, vec![Kind::O]);
    e.add_cursor();
    e.hard_drop();
    e.place_cursor();
    assert_eq!(e.line_clear(|_: &[usize]| {}), vec![0]);
    // the upper half of the O piece is all that is left, now on the bottom row
    assert_eq!(
        occupied(&e),
        vec![(Coordinate::new(4, 0), Color::Yellow), (Coordinate::new(5, 0), Color::Yellow)]
    );
}

#[test]
fn i_piece_completes_bottom_row_and_empties_field() {
    let mut m = Matrix::new();
    for x in [0, 1, 2, 7, 8, 9] {
        m.set(Coordinate::new(x, 0), Some(Color::Red));
    }
    let mut e = engine_with(m, vec![Kind::I]);
    e.add_cursor();
    e.hard_drop();
    e.place_cursor();
    assert_eq!(e.line_clear(|_: &[usize]| {}), vec![0]);
    assert!(occupied(&e).is_empty());
}

#[test]
fn tick_down_moves_one_row() {
    let mut e = engine_with(Matrix::new(), vec![Kind::T]);
    e.add_cursor();
    assert!(!e.cursor_has_hit_bottom());
    e.tick_down();
    assert_eq!(e.cursor_info().unwrap().0[1], Coordinate::new(5, 17));
}

#[test]
fn rotation_uses_kicks_at_the_wall() {
    let mut e = engine_with(Matrix::new(), vec![Kind::I]);
    e.add_cursor();
    // stand the I piece up and push it to the left wall
    let kicks = SrsPlus::new(Kind::I, Rotation::N, RotateKind::Clockwise).get_kicks();
    assert_eq!(e.rotate_cursor(RotateKind::Clockwise, &kicks), Ok(()));
    while e.move_cursor(MoveKind::Left).is_ok() {}
    let (cells, _, _, rotation) = e.cursor_info().unwrap();
    assert_eq!(rotation, Rotation::E);
    assert_eq!(cells[0].x, 0);
    // turning back to N in place would put a cell at x = -1; the first kick (2, 0) fixes it
    let kicks = SrsPlus::new(Kind::I, Rotation::E, RotateKind::CounterClockwise).get_kicks();
    assert_eq!(e.rotate_cursor(RotateKind::CounterClockwise, &kicks), Ok(()));
    let (cells, _, _, rotation) = e.cursor_info().unwrap();
    assert_eq!(rotation, Rotation::N);
    assert_eq!(cells[0].x, 0);
    assert_eq!(cells[3].x, 3);
}

#[test]
fn rotation_fails_when_every_attempt_clips() {
    let mut m = Matrix::new();
    for y in 0..20 {
        for x in 0..10 {
            if x != 4 && x != 5 && x != 6 || y > 1 {
                m.set(Coordinate::new(x, y), Some(Color::Red));
            }
        }
    }
    let mut e = Engine::from_matrix(m);
    e.refill_bag_with(vec![Kind::T]);
    e.add_cursor();
    // a T lying flat in a three-wide, two-deep pit closed from above
    assert!(e.cursor_info().is_some());
    let kicks = vec![Offset::new(0, -18), Offset::new(0, -19)];
    assert_eq!(e.rotate_cursor(RotateKind::Clockwise, &kicks), Err(()));
    assert_eq!(e.cursor_info().unwrap().3, Rotation::N);
}

#[test]
fn rotate_without_cursor_fails() {
    let mut e = Engine::new();
    assert_eq!(e.rotate_cursor(RotateKind::Clockwise, &vec![]), Err(()));
}

#[test]
fn hold_swaps_with_the_held_piece() {
    let mut e = engine_with(Matrix::new(), vec![Kind::Z, Kind::S, Kind::T]);
    e.add_cursor();
    assert!(e.held_cursor_info().is_none());
    e.move_cursor(MoveKind::Left).unwrap();
    e.hold_cursor();
    let (held, color) = e.held_cursor_info().unwrap();
    assert_eq!(color, Color::Purple);
    assert_eq!(held, vec![Offset::new(-1, 0), Offset::new(0, 0), Offset::new(1, 0), Offset::new(0, 1)]);
    assert_eq!(e.cursor_info().unwrap().2, Kind::S);
    e.hold_cursor();
    let (cells, _, kind, _) = e.cursor_info().unwrap();
    assert_eq!(kind, Kind::T);
    // the held piece comes back where it was stored
    assert_eq!(cells[0], Coordinate::new(3, 18));
    assert_eq!(e.held_cursor_info().unwrap().1, Color::Green);
}

#[test]
fn drop_time_at_level_one_is_one_second() {
    assert_eq!(Engine::new().drop_time(), 1_000_000_000);
    assert_eq!(Engine::default().drop_time(), 1_000_000_000);
}

#[test]
fn move_offsets() {
    assert_eq!(MoveKind::Left.offset(), Offset::new(-1, 0));
    assert_eq!(MoveKind::Right.offset(), Offset::new(1, 0));
}

#[test]
fn bags_are_shuffled() {
    let canonical = vec![Kind::L, Kind::J, Kind::Z, Kind::S, Kind::T, Kind::O, Kind::I];
    let mut orders = Vec::new();
    for _ in 0..5 {
        let mut e = Engine::new();
        let mut drawn = Vec::new();
        for _ in 0..7 {
            e.add_cursor();
            drawn.push(e.cursor_info().unwrap().2);
        }
        orders.push(drawn);
    }
    // five bags all in the order the kinds were listed has odds of 1 in 5040^5
    assert!(orders.iter().any(|o| *o != canonical));
}

#[test]
fn line_clear_shows_full_rows_before_removing_them() {
    let mut m = filled_rows(&[0, 3]);
    m.set(Coordinate::new(7, 4), Some(Color::Blue));
    let mut e = Engine::from_matrix(m);
    let mut seen: Vec<Vec<usize>> = Vec::new();
    let cleared = e.line_clear(|rows: &[usize]| seen.push(rows.to_vec()));
    assert_eq!(seen, vec![vec![0, 3]]);
    assert_eq!(cleared, vec![0, 3]);
    assert_eq!(occupied(&e), vec![(Coordinate::new(7, 2), Color::Blue)]);
    let mut calls = 0;
    assert!(e.line_clear(|_: &[usize]| calls += 1).is_empty());
    assert_eq!(calls, 0);
}

#[test]
fn rotation_at_the_spawn_position_succeeds() {
    let mut e = engine_with(Matrix::new(), vec![Kind::L]);
    e.add_cursor();
    let kicks = SrsPlus::new(Kind::L, Rotation::N, RotateKind::Clockwise).get_kicks();
    assert_eq!(e.rotate_cursor(RotateKind::Clockwise, &kicks), Ok(()));
    assert_eq!(e.cursor_info().unwrap().3, Rotation::E);
}
