use totris::{
    Coordinate, DeltaTime, Engine, Game, Input, InputAction, KeyAction, Kind, Matrix, MoveKind, RotateKind,
    Rotation, Timer,
};

const MS: u64 = 1_000_000;

fn press(game: &mut Game, input: Input) {
    game.handle_input(InputAction::new(input, KeyAction::Press));
}

fn release(game: &mut Game, input: Input) {
    game.handle_input(InputAction::new(input, KeyAction::Release));
}

fn grounded_game(kind: Kind) -> Game {
    let mut engine = Engine::from_matrix(Matrix::new());
    engine.refill_bag_with(vec![kind]);
    engine.add_cursor();
    engine.hard_drop();
    Game::new(engine)
}

fn tap(game: &mut Game, kind: MoveKind) {
    press(game, Input::Move(kind));
    release(game, Input::Move(kind));
}

#[test]
fn exhausted_budget_keeps_the_scheduled_lock() {
    let mut game = grounded_game(Kind::O);
    game.advance(0).unwrap();
    // spend the fifteen lock resets
    for i in 0..15 {
        tap(&mut game, if i % 2 == 0 { MoveKind::Right } else { MoveKind::Left });
        game.advance(MS).unwrap();
        assert!(game.engine.cursor_info().is_some());
    }
    // the lock timer restarted at the last reset; moves no longer restart it
    tap(&mut game, MoveKind::Right);
    game.advance(100 * MS).unwrap();
    tap(&mut game, MoveKind::Left);
    game.advance(399 * MS).unwrap();
    assert!(game.engine.cursor_info().is_some());
    game.advance(MS).unwrap();
    assert!(game.engine.cursor_info().is_none());
    let placed = game.engine.cells().into_iter().filter(|(_, c)| c.is_some()).count();
    assert_eq!(placed, 4);
}

#[test]
fn moves_with_budget_left_extend_the_lock() {
    let mut game = grounded_game(Kind::O);
    game.advance(0).unwrap();
    game.advance(400 * MS).unwrap();
    tap(&mut game, MoveKind::Right);
    game.advance(50 * MS).unwrap();
    // the reset restarted the lock timer, so 450 ms later the piece is still there
    game.advance(450 * MS).unwrap();
    assert!(game.engine.cursor_info().is_some());
    game.advance(50 * MS).unwrap();
    assert!(game.engine.cursor_info().is_none());
}

#[test]
fn hard_drop_request_places_at_once() {
    let mut engine = Engine::new();
    engine.refill_bag_with(vec![Kind::I]);
    let mut game = Game::new(engine);
    press(&mut game, Input::HardDrop);
    release(&mut game, Input::HardDrop);
    game.advance(0).unwrap();
    assert!(game.engine.cursor_info().is_none());
    let cells: Vec<Coordinate> =
        game.engine.cells().into_iter().filter(|(_, c)| c.is_some()).map(|(c, _)| c).collect();
    assert_eq!(
        cells,
        vec![Coordinate::new(3, 0), Coordinate::new(4, 0), Coordinate::new(5, 0), Coordinate::new(6, 0)]
    );
}

#[test]
fn gravity_ticks_once_per_second() {
    let mut engine = Engine::new();
    engine.refill_bag_with(vec![Kind::T]);
    let mut game = Game::new(engine);
    game.advance(0).unwrap();
    assert_eq!(game.engine.cursor_info().unwrap().0[1], Coordinate::new(5, 18));
    game.advance(999 * MS).unwrap();
    assert_eq!(game.engine.cursor_info().unwrap().0[1], Coordinate::new(5, 18));
    game.advance(MS).unwrap();
    assert_eq!(game.engine.cursor_info().unwrap().0[1], Coordinate::new(5, 17));
}

#[test]
fn soft_drop_falls_twenty_times_faster() {
    let mut engine = Engine::new();
    engine.refill_bag_with(vec![Kind::T]);
    let mut game = Game::new(engine);
    game.advance(0).unwrap();
    press(&mut game, Input::SoftDrop);
    game.advance(50 * MS).unwrap();
    assert_eq!(game.engine.cursor_info().unwrap().0[1], Coordinate::new(5, 17));
    release(&mut game, Input::SoftDrop);
    game.advance(50 * MS).unwrap();
    assert_eq!(game.engine.cursor_info().unwrap().0[1], Coordinate::new(5, 17));
}

#[test]
fn rotate_request_turns_the_piece() {
    let mut engine = Engine::new();
    engine.refill_bag_with(vec![Kind::T]);
    let mut game = Game::new(engine);
    game.advance(0).unwrap();
    press(&mut game, Input::Rotate(RotateKind::Clockwise));
    assert_eq!(game.engine.cursor_info().unwrap().3, Rotation::E);
    press(&mut game, Input::Rotate(RotateKind::CounterClockwise));
    press(&mut game, Input::Rotate(RotateKind::CounterClockwise));
    assert_eq!(game.engine.cursor_info().unwrap().3, Rotation::W);
}

#[test]
fn hold_request_swaps_pieces() {
    let mut engine = Engine::new();
    engine.refill_bag_with(vec![Kind::S, Kind::O, Kind::L]);
    let mut game = Game::new(engine);
    game.advance(0).unwrap();
    press(&mut game, Input::Hold);
    assert_eq!(game.engine.cursor_info().unwrap().2, Kind::O);
    assert_eq!(game.engine.held_cursor_info().unwrap().1, Kind::L.color());
}

#[test]
fn held_move_repeats_after_the_first_delay() {
    let mut engine = Engine::new();
    engine.refill_bag_with(vec![Kind::O]);
    let mut game = Game::new(engine);
    game.advance(0).unwrap();
    press(&mut game, Input::Move(MoveKind::Left));
    assert_eq!(game.engine.cursor_info().unwrap().0[0], Coordinate::new(3, 18));
    game.advance(299 * MS).unwrap();
    assert_eq!(game.engine.cursor_info().unwrap().0[0], Coordinate::new(3, 18));
    game.advance(MS).unwrap();
    assert_eq!(game.engine.cursor_info().unwrap().0[0], Coordinate::new(2, 18));
}

#[test]
fn timer_keeps_the_remainder() {
    let mut t = Timer::new(100);
    t.update_duration(60);
    assert!(!t.just_finished());
    t.update_duration(60);
    assert!(t.just_finished());
    t.update_duration(80);
    assert!(t.just_finished());
    t.update_duration(10);
    assert!(!t.just_finished());
    t.reset();
    assert!(!t.just_finished());
    t.set_target(5);
    t.update_duration(5);
    assert!(t.just_finished());
    t.update_duration(u64::MAX);
    assert!(t.just_finished());
}

#[test]
fn timer_default_fires_on_any_update() {
    let mut t = Timer::default();
    t.update(DeltaTime::new());
    assert!(t.just_finished());
}

#[test]
fn delta_time_starts_empty() {
    let d = DeltaTime::new();
    assert_eq!(d.get(), 0);
    assert_eq!(d.fps(), usize::MAX);
    let mut d = DeltaTime::default();
    d.update();
    assert!(d.get() < 60 * 1_000_000_000);
}

#[test]
fn input_action_new_keeps_its_parts() {
    let a = InputAction::new(Input::SoftDrop, KeyAction::Release);
    assert!(matches!(a.input, Input::SoftDrop));
    assert!(matches!(a.action, KeyAction::Release));
}

#[test]
fn delta_time_records_capped_elapsed() {
    let mut d = DeltaTime::new();
    d.record(16_666_667, std::time::Instant::now());
    assert_eq!(d.get(), 16_666_667);
    assert_eq!(d.fps(), 60);
    d.record(u128::MAX, std::time::Instant::now());
    assert_eq!(d.get(), u64::MAX);
    assert_eq!(d.fps(), 0);
}
