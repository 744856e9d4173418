//! The lock-delay state machine: input requests and timed steps drive the engine.

use vstd::prelude::*;

use crate::engine::{Engine, MoveKind, move_offset, down, placed, rotation_outcome, drop_nanos, dropped, is_full_set};
use crate::matrix::Cell;
use crate::kick_tables::{SrsPlus, kicks_for};
use crate::matrix::{clipping, placeable, cleared, full_rows};
use crate::geometry::{Offset, HEIGHT};
use crate::piece::{RotateKind, Kind, Piece, vec2_of, moved, color_of, piece_cells, spawned};
use crate::timing::{DeltaTime, Timer};

verus! {

/// A key press or release on an abstract input.
#[derive(Debug)]
pub struct InputAction {
    pub input: Input,
    pub action: KeyAction,
}

impl InputAction {
    pub fn new(input: Input, action: KeyAction) -> (r: InputAction)
        ensures
            r.input == input,
            r.action == action,
    {
        InputAction { input, action }
    }
}

/// Whether a key went down or up.
#[derive(Debug)]
pub enum KeyAction {
    Press,
    Release,
}

/// The abstract actions a player can request.
#[derive(Debug)]
pub enum Input {
    Rotate(RotateKind),
    Move(MoveKind),
    HardDrop,
    SoftDrop,
    Hold,
}

/// Whether `e1` is `e0` after a sideways move request of `kind`: the falling
/// piece moves unless it would clip there, and nothing else changes.
pub open spec fn moved_as_requested(e0: Engine, e1: Engine, kind: MoveKind) -> bool {
    &&& e1.field() == e0.field()
    &&& e1.bag_view() == e0.bag_view()
    &&& e1.held_view() == e0.held_view()
    &&& e1.level_view() == e0.level_view()
    &&& e1.wf()
    &&& match e0.cursor_view() {
        None => e1.cursor_view() is None,
        Some(p) => if clipping(e0.field(), moved(p, move_offset(kind))) {
            e1.cursor_view() == Some(p)
        } else {
            e1.cursor_view() == Some(moved(p, move_offset(kind)))
        },
    }
}

/// Whether the engine accepts a sideways move of `kind` on `e`: the moved piece
/// does not clip, or there is no falling piece.
pub open spec fn move_succeeds(e: Engine, kind: MoveKind) -> bool {
    match e.cursor_view() {
        None => true,
        Some(p) => !clipping(e.field(), moved(p, move_offset(kind))),
    }
}

/// Whether `e1` is `e0` after a rotation request of `kind`, with the kick
/// candidates of the falling piece's kind and state.
pub open spec fn rotated_as_requested(e0: Engine, e1: Engine, kind: RotateKind) -> bool {
    &&& e1.field() == e0.field()
    &&& e1.bag_view() == e0.bag_view()
    &&& e1.held_view() == e0.held_view()
    &&& e1.level_view() == e0.level_view()
    &&& e1.wf()
    &&& match e0.cursor_view() {
        None => e1.cursor_view() is None,
        Some(p) => match rotation_outcome(e0.field(), p, kind, kicks_for(p.kind, p.rotation, kind)) {
            Some(q) => e1.cursor_view() == Some(q),
            None => e1.cursor_view() == Some(p),
        },
    }
}

/// Whether a rotation of `kind` succeeds on `e`.
pub open spec fn rotation_succeeds(e: Engine, kind: RotateKind) -> bool {
    e.cursor_view() matches Some(p) && rotation_outcome(e.field(), p, kind, kicks_for(p.kind, p.rotation, kind)) is Some
}

/// Whether the falling piece of `e` cannot be placed where it is: the stack has
/// reached the top.
pub open spec fn topped_out(e: Engine) -> bool {
    e.cursor_view() matches Some(p) && !placeable(e.field(), p)
}

/// Whether `t` is a timer that held `acc` and was given the target `target`,
/// after `delta` nanoseconds were added: it has finished when the sum (saturated
/// at the largest `u64`) reaches the target, and then the target is taken off.
pub open spec fn timer_advanced(acc: int, target: int, t: Timer, delta: int) -> bool {
    let sum = crate::timing::sum_capped(acc, delta);
    &&& t.target_nanos() == target
    &&& t.finished() == (sum >= target)
    &&& t.accumulated() == if t.finished() {
        sum - target
    } else {
        sum
    }
}

/// Whether `g1` is `g0` after the lock-delay decision with result `r`. A grounded
/// piece spends one unit of its budget on a pending lock reset, restarting the
/// lock timer; it is placed, and the full rows cleared, on a hard drop or when
/// the lock timer has fired (and was not restarted). A piece in the air restarts
/// the lock timer and falls one row on a gravity tick, or on a soft-drop tick
/// while soft drop is held, refilling the budget. The decision fails, changing
/// nothing more, where a piece that has to lock cannot be placed.
pub open spec fn lock_decided(g0: Game, g1: Game, r: Result<(), ()>) -> bool {
    let e = g0.engine_state();
    let resets = g0.pending_lock_reset() && g0.lock_moves_left() > 0;
    let fires = g0.hard_drop_requested() || (!resets && g0.lock_timer_state().finished());
    &&& g1.soft_drop_held() == g0.soft_drop_held()
    &&& g1.tick_timer_state() == g0.tick_timer_state()
    &&& g1.fast_timer_state() == g0.fast_timer_state()
    &&& g1.lock_timer_state().target_nanos() == g0.lock_timer_state().target_nanos()
    &&& if grounded(e) {
        &&& g1.lock_moves_left() == if resets {
            g0.lock_moves_left() - 1
        } else {
            g0.lock_moves_left()
        }
        &&& g1.pending_lock_reset() == (g0.pending_lock_reset() && !resets)
        &&& if resets {
            g1.lock_timer_state().accumulated() == 0 && !g1.lock_timer_state().finished()
        } else {
            g1.lock_timer_state() == g0.lock_timer_state()
        }
        &&& if !fires {
            r is Ok && g1.engine_state() == e && g1.hard_drop_requested() == g0.hard_drop_requested()
        } else if e.cursor_view() is Some && placeable(e.field(), e.cursor_view()->0) {
            let p = e.cursor_view()->0;
            let after = placed(e.field(), piece_cells(p)->0, color_of(p.kind));
            &&& r is Ok
            &&& !g1.hard_drop_requested()
            &&& g1.engine_state().cursor_view() is None
            &&& g1.engine_state().field() == cleared(after, full_rows(after, HEIGHT as nat))
            &&& g1.engine_state().held_view() == e.held_view()
            &&& g1.engine_state().bag_view() == e.bag_view()
        } else {
            r is Err && g1.engine_state() == e
        }
    } else {
        let drops = (g0.soft_drop_held() && g0.fast_timer_state().finished()) || g0.tick_timer_state().finished();
        &&& r is Ok
        &&& g1.lock_timer_state().accumulated() == 0
        &&& !g1.lock_timer_state().finished()
        &&& g1.pending_lock_reset() == g0.pending_lock_reset()
        &&& g1.hard_drop_requested() == g0.hard_drop_requested()
        &&& g1.engine_state().field() == e.field()
        &&& g1.engine_state().held_view() == e.held_view()
        &&& g1.engine_state().bag_view() == e.bag_view()
        &&& g1.lock_moves_left() == Game::LOCK_MOVES
        &&& if drops {
            g1.engine_state().cursor_view() == Some(moved(e.cursor_view()->0, down()))
        } else {
            g1.engine_state().cursor_view() == e.cursor_view()
        }
    }
}

/// Whether `p1` is the piece falling at the start of a step on `e0`, with the
/// bag then holding `bag1`: the falling piece itself, or, where there is none,
/// a fresh piece of the kind drawn from the bag (refilled first when empty).
pub open spec fn spawn_stage(e0: Engine, p1: Piece, bag1: Seq<Kind>) -> bool {
    match e0.cursor_view() {
        Some(p) => p1 == p && bag1 == e0.bag_view(),
        None => if e0.bag_view().len() > 0 {
            p1 == spawned(e0.bag_view().last()) && bag1 == e0.bag_view().drop_last()
        } else {
            p1 == spawned(p1.kind) && is_full_set(bag1.push(p1.kind))
        },
    }
}

/// Whether the held sideways move of `g0` repeats in a step over `elapsed`
/// nanoseconds: its timer, aimed at the first delay or at the repeat delay,
/// reaches its target.
pub open spec fn repeat_fires(g0: Game, elapsed: int) -> bool {
    let target = if g0.move_repeating() {
        Game::MOVE_REPEAT_DELAY
    } else {
        Game::FIRST_MOVE_DELAY
    };
    g0.held_move() is Some && crate::timing::sum_capped(g0.move_repeat_timer_state().accumulated(), elapsed)
        >= target
}

/// `p` after a sideways move of `kind` on the field `v`: moved, unless it would
/// clip there.
pub open spec fn after_move(v: Seq<Cell>, p: Piece, kind: MoveKind) -> Piece {
    if clipping(v, moved(p, move_offset(kind))) {
        p
    } else {
        moved(p, move_offset(kind))
    }
}

/// Whether `g1` is `g0` made ready for the lock-delay decision of a step over
/// `elapsed` nanoseconds: the piece falling at the start (one drawn from the bag
/// where there was none) takes the held move when its repeat fires, and is then
/// brought down as far as it falls where a hard drop is pending; the timers have
/// advanced by `elapsed` (gravity at the level's interval, soft drop twenty times
/// faster); nothing has been placed and the held piece is untouched.
pub open spec fn prepared(g0: Game, g1: Game, elapsed: int) -> bool {
    let e0 = g0.engine_state();
    let e1 = g1.engine_state();
    let v = e0.field();
    let gravity = drop_nanos(e0.level_view());
    let fires = repeat_fires(g0, elapsed);
    &&& g1.wf()
    &&& exists|p1: Piece| #[trigger] spawn_stage(e0, p1, e1.bag_view()) && {
        let p2 = if fires {
            after_move(v, p1, g0.held_move()->0)
        } else {
            p1
        };
        &&& if g0.hard_drop_requested() {
            e1.cursor_view() is Some && dropped(v, p2, e1.cursor_view()->0)
        } else {
            e1.cursor_view() == Some(p2)
        }
        &&& g1.pending_lock_reset() == (g0.pending_lock_reset() || (fires && !clipping(
            v,
            moved(p1, move_offset(g0.held_move()->0)),
        )))
    }
    &&& e1.field() == v
    &&& e1.held_view() == e0.held_view()
    &&& e1.level_view() == e0.level_view()
    &&& g1.lock_moves_left() == g0.lock_moves_left()
    &&& g1.soft_drop_held() == g0.soft_drop_held()
    &&& g1.hard_drop_requested() == g0.hard_drop_requested()
    &&& timer_advanced(
        g0.lock_timer_state().accumulated(),
        g0.lock_timer_state().target_nanos(),
        g1.lock_timer_state(),
        elapsed,
    )
    &&& timer_advanced(g0.tick_timer_state().accumulated(), gravity, g1.tick_timer_state(), elapsed)
    &&& timer_advanced(
        g0.fast_timer_state().accumulated(),
        gravity / Game::SPEED_MULT as int,
        g1.fast_timer_state(),
        elapsed,
    )
}

/// With the lock-reset budget spent, moves and rotations no longer restart the
/// lock timer: a grounded piece stays put until the timer fires, and is placed (or
/// the step fails at the top) exactly when it does.
pub proof fn lemma_spent_budget_locks_on_timer(g0: Game, g1: Game, r: Result<(), ()>)
    requires
        lock_decided(g0, g1, r),
        grounded(g0.engine_state()),
        g0.engine_state().cursor_view() is Some,
        g0.lock_moves_left() == 0,
        !g0.hard_drop_requested(),
    ensures
        g1.lock_moves_left() == 0,
        g0.lock_timer_state().finished() <==> (g1.engine_state().cursor_view() is None || r is Err),
        !g0.lock_timer_state().finished() ==> g1.engine_state() == g0.engine_state(),
{
}

/// Whether `g1` has the same four timers as `g0`.
pub open spec fn timers_kept(g0: Game, g1: Game) -> bool {
    &&& g1.lock_timer_state() == g0.lock_timer_state()
    &&& g1.tick_timer_state() == g0.tick_timer_state()
    &&& g1.fast_timer_state() == g0.fast_timer_state()
    &&& g1.move_repeat_timer_state() == g0.move_repeat_timer_state()
}

/// Whether `g1` has the same auto-repeat state as `g0`.
pub open spec fn repeat_state_kept(g0: Game, g1: Game) -> bool {
    &&& g1.held_move() == g0.held_move()
    &&& g1.previous_move() == g0.previous_move()
    &&& g1.move_repeating() == g0.move_repeating()
}

/// The auto-repeat state after a press of the move `kind`: an accepted move of
/// the kind already held switches to the short repeat delay; an accepted move of
/// another kind becomes the held move, remembering the one it replaces, and
/// starts with the first delay; a rejected move changes nothing.
pub open spec fn move_press_repeat(g0: Game, g1: Game, kind: MoveKind) -> bool {
    if !move_succeeds(g0.engine_state(), kind) {
        repeat_state_kept(g0, g1)
    } else if g0.held_move() == Some(kind) {
        &&& g1.held_move() == g0.held_move()
        &&& g1.previous_move() == g0.previous_move()
        &&& g1.move_repeating()
    } else {
        &&& g1.held_move() == Some(kind)
        &&& g1.previous_move() == g0.held_move()
        &&& !g1.move_repeating()
    }
}

/// The auto-repeat state after a release of the move `kind`: releasing the held
/// move falls back to the one held before it; the remembered move is dropped.
pub open spec fn move_release_repeat(g0: Game, g1: Game, kind: MoveKind) -> bool {
    &&& g1.move_repeating() == g0.move_repeating()
    &&& g1.previous_move() is None
    &&& g1.held_move() == if g0.held_move() == Some(kind) {
        g0.previous_move()
    } else {
        g0.held_move()
    }
}

/// The engine together with the timers and flags of the lock-delay rules.
pub struct Game {
    pub engine: Engine,
    tick_timer: Timer,
    fast_timer: Timer,
    lock_timer: Timer,
    repeat_move: bool,
    move_repeat_timer: Timer,
    prev_move: Option<MoveKind>,
    current_move: Option<MoveKind>,
    lock_reset: bool,
    lock_moves: i32,
    hard_drop: bool,
    soft_drop: bool,
}

/// Whether the falling piece of `e` cannot move down (true without one).
pub open spec fn grounded(e: Engine) -> bool {
    match e.cursor_view() {
        None => true,
        Some(p) => clipping(e.field(), moved(p, down())),
    }
}

impl Game {
    /// Lock resets a piece may use while grounded before it must lock.
    pub const LOCK_MOVES: i32 = 15;

    /// How much faster than gravity a soft drop falls.
    pub const SPEED_MULT: u64 = 20;

    /// Lock delay: 500 ms.
    pub const LOCK_TIME: u64 = 500000000;

    /// Delay before a held move repeats: 300 ms.
    pub const FIRST_MOVE_DELAY: u64 = 300000000;

    /// Delay between repeats of a held move: 35 ms.
    pub const MOVE_REPEAT_DELAY: u64 = 35000000;

    /// The engine that this game drives.
    pub closed spec fn engine_state(&self) -> Engine {
        self.engine
    }

    /// Lock resets left to the falling piece.
    pub closed spec fn lock_moves_left(&self) -> int {
        self.lock_moves as int
    }

    /// Whether a move or rotation happened since the last lock reset.
    pub closed spec fn pending_lock_reset(&self) -> bool {
        self.lock_reset
    }

    /// Whether a hard drop was requested and not yet carried out.
    pub closed spec fn hard_drop_requested(&self) -> bool {
        self.hard_drop
    }

    /// Whether soft drop is held.
    pub closed spec fn soft_drop_held(&self) -> bool {
        self.soft_drop
    }

    /// The sideways move being held, if any.
    pub closed spec fn held_move(&self) -> Option<MoveKind> {
        self.current_move
    }

    /// The move that was held before the current one, if any.
    pub closed spec fn previous_move(&self) -> Option<MoveKind> {
        self.prev_move
    }

    /// Whether the held move has already repeated (so the short delay applies).
    pub closed spec fn move_repeating(&self) -> bool {
        self.repeat_move
    }

    pub closed spec fn move_repeat_timer_state(&self) -> Timer {
        self.move_repeat_timer
    }

    pub closed spec fn lock_timer_state(&self) -> Timer {
        self.lock_timer
    }

    pub closed spec fn tick_timer_state(&self) -> Timer {
        self.tick_timer
    }

    pub closed spec fn fast_timer_state(&self) -> Timer {
        self.fast_timer
    }

    /// The invariant: a well-formed engine and a lock-reset budget within bounds.
    pub closed spec fn wf(&self) -> bool {
        self.engine.wf() && 0 <= self.lock_moves <= Self::LOCK_MOVES
    }

    /// A game over `engine` with a full lock-reset budget and idle timers.
    pub fn new(engine: Engine) -> (r: Game)
        requires
            engine.wf(),
        ensures
            r.wf(),
            r.engine_state() == engine,
            r.lock_moves_left() == Self::LOCK_MOVES,
            !r.pending_lock_reset(),
            !r.hard_drop_requested(),
            !r.soft_drop_held(),
            r.lock_timer_state().target_nanos() == Self::LOCK_TIME,
            r.lock_timer_state().accumulated() == 0,
            !r.lock_timer_state().finished(),
            r.tick_timer_state().target_nanos() == 0 && r.tick_timer_state().accumulated() == 0
                && !r.tick_timer_state().finished(),
            r.fast_timer_state().target_nanos() == 0 && r.fast_timer_state().accumulated() == 0
                && !r.fast_timer_state().finished(),
            r.move_repeat_timer_state().target_nanos() == 0 && r.move_repeat_timer_state().accumulated() == 0
                && !r.move_repeat_timer_state().finished(),
            r.held_move() is None,
            r.previous_move() is None,
            !r.move_repeating(),
    {
        Game {
            engine,
            tick_timer: Timer::default(),
            fast_timer: Timer::default(),
            lock_timer: Timer::new(Self::LOCK_TIME),
            repeat_move: false,
            move_repeat_timer: Timer::default(),
            prev_move: None,
            current_move: None,
            lock_reset: false,
            lock_moves: Self::LOCK_MOVES,
            hard_drop: false,
            soft_drop: false,
        }
    }

    /// Moves the falling piece; a successful move asks for a lock reset and starts
    /// or continues the auto-repeat of `kind`.
    fn move_cursor(&mut self, kind: MoveKind)
        requires
            old(self).wf(),
        ensures
            final(self).wf(),
            final(self).lock_moves == old(self).lock_moves,
            timers_kept(*old(self), *final(self)),
            final(self).hard_drop == old(self).hard_drop,
            final(self).soft_drop == old(self).soft_drop,
            moved_as_requested(old(self).engine, final(self).engine, kind),
            move_press_repeat(*old(self), *final(self), kind),
            final(self).lock_reset == (old(self).lock_reset || move_succeeds(old(self).engine, kind)),
    {
        if self.engine.move_cursor(kind).is_err() {
            return;
        }
        self.lock_reset = true;
        match self.current_move {
            Some(current) if current == kind => {
                self.repeat_move = true;
            },
            _ => {
                self.repeat_move = false;
                self.prev_move = self.current_move;
                self.current_move = Some(kind);
            },
        }
    }

    /// Ends the auto-repeat of `kind`, falling back to the move held before it.
    fn move_stop(&mut self, kind: MoveKind)
        ensures
            final(self).engine == old(self).engine,
            timers_kept(*old(self), *final(self)),
            move_release_repeat(*old(self), *final(self), kind),
            final(self).lock_moves == old(self).lock_moves,
            final(self).lock_reset == old(self).lock_reset,
            final(self).hard_drop == old(self).hard_drop,
            final(self).soft_drop == old(self).soft_drop,
    {
        match self.current_move {
            Some(current) if current == kind => {
                self.current_move = self.prev_move;
                self.prev_move = None;
            },
            _ => {
                self.prev_move = None;
            },
        }
    }

    /// Turns the falling piece with the kick candidates of its kind and state; a
    /// successful rotation asks for a lock reset, a failed one changes nothing.
    fn rotate_cursor(&mut self, rotation: RotateKind)
        requires
            old(self).wf(),
        ensures
            final(self).wf(),
            final(self).lock_moves == old(self).lock_moves,
            timers_kept(*old(self), *final(self)),
            repeat_state_kept(*old(self), *final(self)),
            final(self).hard_drop == old(self).hard_drop,
            final(self).soft_drop == old(self).soft_drop,
            rotated_as_requested(old(self).engine, final(self).engine, rotation),
            final(self).lock_reset == (old(self).lock_reset || rotation_succeeds(old(self).engine, rotation)),
    {
        let (kind, state) = match self.engine.cursor_info() {
            None => return,
            Some(info) => (info.2, info.3),
        };
        let kicks = SrsPlus::new(kind, state, rotation).get_kicks();
        proof {
            assert(kicks@.map_values(|o: Offset| vec2_of(o)) =~= kicks_for(kind, state, rotation));
        }
        if self.engine.rotate_cursor(rotation, &kicks).is_ok() {
            self.lock_reset = true;
        }
    }

    /// Applies one input request.
    pub fn handle_input(&mut self, input_action: InputAction)
        requires
            old(self).wf(),
        ensures
            final(self).wf(),
            final(self).lock_moves_left() == old(self).lock_moves_left(),
            timers_kept(*old(self), *final(self)),
            final(self).hard_drop_requested() == (old(self).hard_drop_requested() || (input_action.input is HardDrop
                && input_action.action is Press)),
            final(self).soft_drop_held() == if input_action.input is SoftDrop {
                input_action.action is Press
            } else {
                old(self).soft_drop_held()
            },
            !((input_action.input is Move || input_action.input is Rotate) && input_action.action is Press)
                ==> final(self).pending_lock_reset() == old(self).pending_lock_reset(),
            match (input_action.input, input_action.action) {
                (Input::Move(kind), KeyAction::Press) => move_press_repeat(*old(self), *final(self), kind),
                (Input::Move(kind), KeyAction::Release) => move_release_repeat(*old(self), *final(self), kind),
                _ => repeat_state_kept(*old(self), *final(self)),
            },
            match (input_action.input, input_action.action) {
                (Input::Rotate(kind), KeyAction::Press) => {
                    &&& rotated_as_requested(old(self).engine_state(), final(self).engine_state(), kind)
                    &&& final(self).pending_lock_reset() == (old(self).pending_lock_reset()
                        || rotation_succeeds(old(self).engine_state(), kind))
                },
                (Input::Move(kind), KeyAction::Press) => {
                    &&& moved_as_requested(old(self).engine_state(), final(self).engine_state(), kind)
                    &&& final(self).pending_lock_reset() == (old(self).pending_lock_reset()
                        || move_succeeds(old(self).engine_state(), kind))
                },
                (Input::HardDrop, KeyAction::Press) => {
                    &&& final(self).hard_drop_requested()
                    &&& final(self).engine_state() == old(self).engine_state()
                },
                (Input::SoftDrop, action) => {
                    &&& final(self).soft_drop_held() == (action is Press)
                    &&& final(self).engine_state() == old(self).engine_state()
                },
                (Input::Hold, KeyAction::Press) => match old(self).engine_state().cursor_view() {
                    None => final(self).engine_state() == old(self).engine_state(),
                    Some(p) => {
                        &&& final(self).engine_state().held_view() == Some(p)
                        &&& final(self).engine_state().field() == old(self).engine_state().field()
                        &&& final(self).engine_state().level_view() == old(self).engine_state().level_view()
                        &&& old(self).engine_state().held_view() is Some ==> {
                            &&& final(self).engine_state().cursor_view() == old(self).engine_state().held_view()
                            &&& final(self).engine_state().bag_view() == old(self).engine_state().bag_view()
                        }
                        &&& old(self).engine_state().held_view() is None && old(self).engine_state().bag_view().len()
                            > 0 ==> {
                            &&& final(self).engine_state().cursor_view() == Some(
                                spawned(old(self).engine_state().bag_view().last()),
                            )
                            &&& final(self).engine_state().bag_view() == old(self).engine_state().bag_view().drop_last()
                        }
                        &&& old(self).engine_state().held_view() is None && old(self).engine_state().bag_view().len()
                            == 0 ==> {
                            let q = final(self).engine_state().cursor_view()->0;
                            &&& final(self).engine_state().cursor_view() == Some(spawned(q.kind))
                            &&& is_full_set(final(self).engine_state().bag_view().push(q.kind))
                        }
                    },
                },
                _ => final(self).engine_state() == old(self).engine_state(),
            },
    {
        let InputAction { input, action } = input_action;
        match (input, action) {
            (Input::Rotate(kind), KeyAction::Press) => self.rotate_cursor(kind),
            (Input::Rotate(_), KeyAction::Release) => {},
            (Input::Move(kind), KeyAction::Press) => self.move_cursor(kind),
            (Input::Move(kind), KeyAction::Release) => self.move_stop(kind),
            (Input::HardDrop, KeyAction::Press) => {
                self.hard_drop = true;
            },
            (Input::HardDrop, KeyAction::Release) => {},
            (Input::SoftDrop, KeyAction::Press) => {
                self.soft_drop = true;
            },
            (Input::SoftDrop, KeyAction::Release) => {
                self.soft_drop = false;
            },
            (Input::Hold, KeyAction::Press) => {
                if self.engine.cursor_info().is_some() {
                    self.engine.hold_cursor();
                }
            },
            (Input::Hold, KeyAction::Release) => {},
        }
    }
}

impl Game {
    /// Sets the gravity and soft-drop targets from `tick_time` and adds `delta` to
    /// every timer.
    fn update_timers(&mut self, tick_time: u64, delta: u64)
        ensures
            final(self).engine == old(self).engine,
            final(self).lock_moves == old(self).lock_moves,
            final(self).lock_reset == old(self).lock_reset,
            final(self).hard_drop == old(self).hard_drop,
            final(self).soft_drop == old(self).soft_drop,
            final(self).current_move == old(self).current_move,
            final(self).repeat_move == old(self).repeat_move,
            timer_advanced(
                old(self).move_repeat_timer.accumulated(),
                old(self).move_repeat_timer.target_nanos(),
                final(self).move_repeat_timer,
                delta as int,
            ),
            timer_advanced(old(self).tick_timer.accumulated(), tick_time as int, final(self).tick_timer, delta as int),
            timer_advanced(
                old(self).fast_timer.accumulated(),
                tick_time as int / Self::SPEED_MULT as int,
                final(self).fast_timer,
                delta as int,
            ),
            timer_advanced(
                old(self).lock_timer.accumulated(),
                old(self).lock_timer.target_nanos(),
                final(self).lock_timer,
                delta as int,
            ),
    {
        self.tick_timer.set_target(tick_time);
        self.fast_timer.set_target(tick_time / Self::SPEED_MULT);
        self.tick_timer.update_duration(delta);
        self.fast_timer.update_duration(delta);
        self.lock_timer.update_duration(delta);
        self.move_repeat_timer.update_duration(delta);
    }

    /// The lock-delay decision once the timers are up to date (see `lock_decided`).
    fn settle(&mut self) -> (r: Result<(), ()>)
        requires
            old(self).wf(),
        ensures
            final(self).wf(),
            lock_decided(*old(self), *final(self), r),
    {
        if self.engine.cursor_has_hit_bottom() {
            if self.lock_reset && self.lock_moves > 0 {
                self.lock_timer.reset();
                self.lock_reset = false;
                self.lock_moves = self.lock_moves - 1;
            }
            if self.hard_drop || self.lock_timer.just_finished() {
                if !self.engine.can_place_cursor() {
                    return Err(());
                }
                self.hard_drop = false;
                self.engine.place_cursor();
                self.engine.line_clear(|_rows: &[usize]| {});
            }
        } else {
            self.lock_timer.reset();
            self.lock_moves = Self::LOCK_MOVES;
            let tick = self.tick_timer.just_finished();
            let fast_tick = self.fast_timer.just_finished();
            if (self.soft_drop && fast_tick) || tick {
                self.engine.tick_down();
            }
        }
        Ok(())
    }

    /// One simulation step over `elapsed` nanoseconds: spawns a piece when there
    /// is none, advances the timers, repeats a held move when its timer fires,
    /// carries out a pending hard drop, then applies the lock-delay decision of
    /// `settle`. Fails where a piece that has to lock cannot be placed (the stack
    /// has reached the top).
    pub fn advance(&mut self, elapsed: u64) -> (r: Result<(), ()>)
        requires
            old(self).wf(),
        ensures
            final(self).wf(),
            0 <= final(self).lock_moves_left() <= Self::LOCK_MOVES,
            final(self).soft_drop_held() == old(self).soft_drop_held(),
            r is Err ==> topped_out(final(self).engine_state()),
            exists|mid: Game| #[trigger] prepared(*old(self), mid, elapsed as int) && lock_decided(mid, *final(self), r),
    {
        if self.engine.cursor_info().is_none() {
            self.engine.add_cursor();
        }
        let ghost p1 = self.engine.cursor_view()->0;
        proof {
            assert(spawn_stage(old(self).engine, p1, self.engine.bag_view()));
        }
        if self.repeat_move {
            self.move_repeat_timer.set_target(Self::MOVE_REPEAT_DELAY);
        } else {
            self.move_repeat_timer.set_target(Self::FIRST_MOVE_DELAY);
        }
        let tick_time = self.engine.drop_time();
        self.update_timers(tick_time, elapsed);
        let ghost fires = repeat_fires(*old(self), elapsed as int);
        let ghost reset_before = self.lock_reset;
        match self.current_move {
            Some(kind) => {
                if self.move_repeat_timer.just_finished() {
                    self.move_cursor(kind);
                }
            },
            None => {
                self.repeat_move = false;
                self.move_repeat_timer.reset();
            },
        }
        let ghost p2 = self.engine.cursor_view()->0;
        proof {
            assert(self.engine.cursor_view() == Some(p2));
            assert(p2 == if fires { after_move(old(self).engine.field(), p1, old(self).current_move->0) } else { p1 });
            assert(self.lock_reset == (old(self).lock_reset || (fires && !clipping(
                old(self).engine.field(),
                moved(p1, move_offset(old(self).current_move->0)),
            ))));
        }
        if self.hard_drop {
            self.engine.hard_drop();
        }
        let ghost mid = *self;
        let r = self.settle();
        proof {
            assert(prepared(*old(self), mid, elapsed as int));
        }
        r
    }

    /// One simulation step over the frame time of `delta_time`, as `advance`.
    pub fn update(&mut self, delta_time: DeltaTime) -> (r: Result<(), ()>)
        requires
            old(self).wf(),
        ensures
            final(self).wf(),
            r is Err ==> topped_out(final(self).engine_state()),
            exists|mid: Game| #[trigger] prepared(*old(self), mid, delta_time.nanos()) && lock_decided(
                mid,
                *final(self),
                r,
            ),
    {
        self.advance(delta_time.get())
    }
}

} // verus!
