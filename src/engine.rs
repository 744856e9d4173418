//! The engine: field, bag, falling piece, held piece and level.

use vstd::prelude::*;

use rand::seq::SliceRandom;

use crate::geometry::{Coordinate, GridIncrement, Offset, WIDTH, SIZE, HEIGHT};
use crate::timing::NANOS_PER_SECOND;
use crate::matrix::{Matrix, Color, Cell, clipping, placeable, empty_cells, cell_index, on_field, full_rows,
    cleared, valid_rows, line_full, remove_row};
use crate::piece::{Kind, Piece, color_of, shape, RotateKind, Rotation, Vec2, vec2_of, moved, spawned, piece_cells,
    rotation_after, can_move};

verus! {

/// Direction of a sideways move.
#[derive(Clone, Copy, Debug, PartialEq, Eq, Structural)]
pub enum MoveKind {
    Left,
    Right,
}

pub open spec fn move_offset(kind: MoveKind) -> Vec2 {
    match kind {
        MoveKind::Left => (-1, 0),
        MoveKind::Right => (1, 0),
    }
}

/// One row down.
pub open spec fn down() -> Vec2 {
    (0, -1)
}

impl MoveKind {
    /// The displacement of this move.
    pub fn offset(&self) -> (r: Offset)
        ensures
            vec2_of(r) == move_offset(*self),
    {
        match self {
            MoveKind::Left => Offset::new(-1, 0),
            MoveKind::Right => Offset::new(1, 0),
        }
    }
}

/// The seven kinds, each once.
pub open spec fn all_kinds() -> Seq<Kind> {
    seq![Kind::I, Kind::O, Kind::T, Kind::S, Kind::Z, Kind::J, Kind::L]
}

/// Whether `s` holds each of the seven kinds exactly once.
pub open spec fn is_full_set(s: Seq<Kind>) -> bool {
    s.to_multiset() == all_kinds().to_multiset()
}

fn kinds_in_order() -> (r: Vec<Kind>)
    ensures
        r@ == all_kinds(),
{
    vec![Kind::I, Kind::O, Kind::T, Kind::S, Kind::Z, Kind::J, Kind::L]
}

/// Relies on rand's `SliceRandom::shuffle` with the thread-local generator,
/// which only swaps items: the result is a permutation of the input.
#[verifier::external_body]
fn shuffle(kinds: &mut Vec<Kind>)
    ensures
        final(kinds)@.to_multiset() == old(kinds)@.to_multiset(),
{
    kinds.shuffle(&mut rand::thread_rng());
}

/// The game state that the rules act on.
pub struct Engine {
    matrix: Matrix,
    bag: Vec<Kind>,
    cursor: Option<Piece>,
    held_cursor: Option<Piece>,
    level: u8,
}

/// Whether an optional piece is absent or resolves to cells.
pub open spec fn resolved(p: Option<Piece>) -> bool {
    p matches Some(q) ==> piece_cells(q) is Some
}

impl Engine {
    /// The field's cells.
    pub closed spec fn field(&self) -> Seq<Cell> {
        self.matrix@
    }

    /// Pending kinds; the next piece comes from the end.
    pub closed spec fn bag_view(&self) -> Seq<Kind> {
        self.bag@
    }

    /// The falling piece.
    pub closed spec fn cursor_view(&self) -> Option<Piece> {
        self.cursor
    }

    /// The held piece.
    pub closed spec fn held_view(&self) -> Option<Piece> {
        self.held_cursor
    }

    pub closed spec fn level_view(&self) -> int {
        self.level as int
    }

    /// The engine's invariant: a whole field, a level that the gravity formula
    /// covers, and pieces that resolve to cells.
    pub closed spec fn wf(&self) -> bool {
        &&& self.matrix.wf()
        &&& 1 <= self.level <= 115
        &&& resolved(self.cursor)
        &&& resolved(self.held_cursor)
    }

    /// An engine with an empty field, an empty bag, no pieces, at level 1.
    pub fn new() -> (r: Engine)
        ensures
            r.wf(),
            r.field() == empty_cells(),
            r.bag_view().len() == 0,
            r.cursor_view() is None,
            r.held_view() is None,
            r.level_view() == 1,
    {
        Engine { matrix: Matrix::new(), bag: Vec::new(), cursor: None, held_cursor: None, level: 1 }
    }

    /// An engine over the given field, otherwise as `new`.
    pub fn from_matrix(matrix: Matrix) -> (r: Engine)
        requires
            matrix.wf(),
        ensures
            r.wf(),
            r.field() == matrix@,
            r.bag_view().len() == 0,
            r.cursor_view() is None,
            r.held_view() is None,
            r.level_view() == 1,
    {
        Engine { matrix, bag: Vec::new(), cursor: None, held_cursor: None, level: 1 }
    }

    /// Fills the empty bag with `order`; the next piece is its last item.
    pub fn refill_bag_with(&mut self, order: Vec<Kind>)
        requires
            old(self).wf(),
            old(self).bag_view().len() == 0,
        ensures
            final(self).wf(),
            final(self).bag_view() == order@,
            final(self).field() == old(self).field(),
            final(self).cursor_view() == old(self).cursor_view(),
            final(self).held_view() == old(self).held_view(),
            final(self).level_view() == old(self).level_view(),
    {
        self.bag = order;
    }

    /// Fills the empty bag with the seven kinds in a random order.
    pub fn refill_bag(&mut self)
        requires
            old(self).wf(),
            old(self).bag_view().len() == 0,
        ensures
            final(self).wf(),
            is_full_set(final(self).bag_view()),
            final(self).field() == old(self).field(),
            final(self).cursor_view() == old(self).cursor_view(),
            final(self).held_view() == old(self).held_view(),
            final(self).level_view() == old(self).level_view(),
    {
        let mut kinds = kinds_in_order();
        shuffle(&mut kinds);
        self.refill_bag_with(kinds);
    }

    /// Draws the next kind from the bag, refilling it first when it is empty, and
    /// makes a fresh piece of that kind the falling piece.
    pub fn add_cursor(&mut self)
        requires
            old(self).wf(),
        ensures
            final(self).wf(),
            final(self).field() == old(self).field(),
            final(self).held_view() == old(self).held_view(),
            final(self).level_view() == old(self).level_view(),
            old(self).bag_view().len() > 0 ==> {
                &&& final(self).cursor_view() == Some(spawned(old(self).bag_view().last()))
                &&& final(self).bag_view() == old(self).bag_view().drop_last()
            },
            old(self).bag_view().len() == 0 ==> {
                &&& final(self).cursor_view() matches Some(p)
                &&& final(self).cursor_view() == Some(spawned(p.kind))
                &&& is_full_set(final(self).bag_view().push(p.kind))
            },
    {
        if self.bag.len() == 0 {
            self.refill_bag();
        }
        proof {
            if old(self).bag@.len() == 0 {
                vstd::seq_lib::to_multiset_len(self.bag@);
                vstd::seq_lib::to_multiset_len(all_kinds());
            }
        }
        let ghost before = self.bag@;
        let kind = self.bag.pop().unwrap();
        proof {
            assert(before =~= self.bag@.push(kind));
        }
        self.cursor = Some(Piece::new(kind));
        proof {
            lemma_spawn_resolves(kind);
        }
    }
}

/// The first of the candidates `kicks[i..]` that moves `p` to where it does not
/// clip (and keeps its position within `isize`), applied to `p`.
pub open spec fn kick_search(v: Seq<Cell>, p: Piece, kicks: Seq<Vec2>, i: int) -> Option<Piece>
    decreases kicks.len() - i,
{
    if i < 0 || i >= kicks.len() {
        None
    } else if can_move(p, kicks[i]) && !clipping(v, moved(p, kicks[i])) {
        Some(moved(p, kicks[i]))
    } else {
        kick_search(v, p, kicks, i + 1)
    }
}

/// Where a rotation of `p` in direction `kind` with the candidates `kicks` ends:
/// the turned piece itself if it does not clip, else the first kicked one that
/// does not; `None` when every attempt clips.
pub open spec fn rotation_outcome(v: Seq<Cell>, p: Piece, kind: RotateKind, kicks: Seq<Vec2>) -> Option<Piece> {
    let r = Piece { rotation: rotation_after(p.rotation, kind), ..p };
    if !clipping(v, r) {
        Some(r)
    } else {
        kick_search(v, r, kicks, 0)
    }
}

/// Whether `p` can fall `k` rows, one at a time, without clipping on the way.
pub open spec fn falls_freely(v: Seq<Cell>, p: Piece, k: int) -> bool {
    forall|j: int| 1 <= j <= k ==> !clipping(v, #[trigger] moved(p, (0, -j)))
}

/// Whether `q` is `p` dropped as far as it can fall.
pub open spec fn dropped(v: Seq<Cell>, p: Piece, q: Piece) -> bool {
    exists|k: int|
        k >= 0 && falls_freely(v, p, k) && q == moved(p, (0, -k)) && clipping(v, moved(p, (0, -(k + 1))))
}

/// `p` shifted by `o`, or `None` where the position would leave `isize`.
fn try_moved(p: &Piece, o: Offset) -> (r: Option<Piece>)
    ensures
        r == if can_move(*p, vec2_of(o)) {
            Some(moved(*p, vec2_of(o)))
        } else {
            None::<Piece>
        },
{
    match (p.position.x.checked_add(o.x), p.position.y.checked_add(o.y)) {
        (Some(x), Some(y)) => Some(Piece { kind: p.kind, position: Offset::new(x, y), rotation: p.rotation }),
        _ => None,
    }
}

/// The cells of a shape offset placed at any rotation lie within three cells of
/// the origin.
proof fn lemma_rotated_small(p: Piece, i: int)
    requires
        0 <= i < 4,
    ensures
        -3 <= crate::piece::rotate_cell(p.kind, p.rotation, crate::piece::shape(p.kind)[i]).0 <= 3,
        -3 <= crate::piece::rotate_cell(p.kind, p.rotation, crate::piece::shape(p.kind)[i]).1 <= 3,
{
    if i == 0 {
    } else if i == 1 {
    } else if i == 2 {
    } else {
    }
}

/// A piece that resolves to cells stands within three columns of the field and
/// at most three rows below the bottom row.
proof fn lemma_resolved_bounds(p: Piece)
    requires
        piece_cells(p) is Some,
    ensures
        -3 <= p.position.x <= WIDTH + 3,
        p.position.y >= -3,
{
    assert(crate::piece::resolvable(crate::piece::raw_cells(p)[0]));
    lemma_rotated_small(p, 0);
}

impl Engine {
    /// The falling piece moved down one row, if it does not clip there.
    fn ticked_down_cursor(&self) -> (r: Option<Piece>)
        requires
            self.wf(),
        ensures
            match self.cursor {
                None => r is None,
                Some(p) => if clipping(self.matrix@, moved(p, down())) {
                    r is None
                } else {
                    r == Some(moved(p, down()))
                },
            },
    {
        match self.cursor {
            None => None,
            Some(cursor) => {
                proof {
                    lemma_resolved_bounds(cursor);
                }
                let new_cursor = cursor.moved_by(Offset::new(0, -1));
                if self.matrix.is_clipping(&new_cursor) {
                    None
                } else {
                    Some(new_cursor)
                }
            },
        }
    }

    /// Whether the falling piece cannot move down one row (true without one).
    pub fn cursor_has_hit_bottom(&self) -> (r: bool)
        requires
            self.wf(),
        ensures
            r == match self.cursor_view() {
                None => true,
                Some(p) => clipping(self.field(), moved(p, down())),
            },
    {
        self.ticked_down_cursor().is_none()
    }

    /// Moves the falling piece down one row; the caller has checked that it can.
    pub fn tick_down(&mut self)
        requires
            old(self).wf(),
            old(self).cursor_view() is Some,
            !clipping(old(self).field(), moved(old(self).cursor_view()->0, down())),
        ensures
            final(self).wf(),
            final(self).cursor_view() == Some(moved(old(self).cursor_view()->0, down())),
            final(self).field() == old(self).field(),
            final(self).bag_view() == old(self).bag_view(),
            final(self).held_view() == old(self).held_view(),
            final(self).level_view() == old(self).level_view(),
    {
        let next = self.ticked_down_cursor();
        self.cursor = next;
    }

    /// Moves the falling piece down as far as it can fall, without placing it.
    pub fn hard_drop(&mut self)
        requires
            old(self).wf(),
        ensures
            final(self).wf(),
            match old(self).cursor_view() {
                None => final(self).cursor_view() is None,
                Some(p) => final(self).cursor_view() matches Some(q) && dropped(old(self).field(), p, q),
            },
            final(self).cursor_view() matches Some(q) ==> clipping(final(self).field(), moved(q, down())),
            final(self).field() == old(self).field(),
            final(self).bag_view() == old(self).bag_view(),
            final(self).held_view() == old(self).held_view(),
            final(self).level_view() == old(self).level_view(),
    {
        let ghost start = self.cursor;
        let ghost k: int = 0;
        proof {
            if let Some(p) = start {
                lemma_resolved_bounds(p);
                assert(moved(p, (0, 0)) == p);
            }
        }
        loop
            invariant
                self.wf(),
                self.matrix@ == old(self).matrix@,
                self.bag@ == old(self).bag@,
                self.held_cursor == old(self).held_cursor,
                self.level == old(self).level,
                start == old(self).cursor,
                match start {
                    None => self.cursor is None,
                    Some(p) => k >= 0 && p.position.y - k >= -3 && falls_freely(self.matrix@, p, k)
                        && self.cursor == Some(moved(p, (0, -k))),
                },
            ensures
                self.wf(),
                self.matrix@ == old(self).matrix@,
                self.bag@ == old(self).bag@,
                self.held_cursor == old(self).held_cursor,
                self.level == old(self).level,
                match start {
                    None => self.cursor is None,
                    Some(p) => self.cursor matches Some(q) && dropped(self.matrix@, p, q),
                },
                self.cursor matches Some(q) ==> clipping(self.matrix@, moved(q, down())),
            decreases
                match self.cursor {
                    None => 0,
                    Some(c) => c.position.y + 4,
                },
        {
            proof {
                if let Some(c) = self.cursor {
                    lemma_resolved_bounds(c);
                }
            }
            match self.ticked_down_cursor() {
                Some(next) => {
                    proof {
                        let p = start->0;
                        assert(moved(moved(p, (0, -k)), down()) == moved(p, (0, -(k + 1))));
                        k = k + 1;
                        assert forall|j: int| 1 <= j <= k implies !clipping(self.matrix@, #[trigger] moved(p, (0, -j))) by {
                            if j < k {
                                assert(falls_freely(self.matrix@, p, k - 1));
                            }
                        }
                    }
                    self.cursor = Some(next);
                    proof {
                        lemma_resolved_bounds(next);
                        assert(start->0.position.y - k >= -3);
                    }
                },
                None => {
                    proof {
                        if let Some(p) = start {
                            assert(moved(moved(p, (0, -k)), down()) == moved(p, (0, -(k + 1))));
                            assert(dropped(self.matrix@, p, moved(p, (0, -k))));
                        }
                    }
                    break;
                },
            }
        }
    }

    /// Moves the falling piece one column; fails, leaving it in place, where the
    /// moved piece would clip. Without a falling piece nothing happens.
    pub fn move_cursor(&mut self, kind: MoveKind) -> (r: Result<(), ()>)
        requires
            old(self).wf(),
        ensures
            final(self).wf(),
            match old(self).cursor_view() {
                None => r is Ok && final(self).cursor_view() is None,
                Some(p) => if clipping(old(self).field(), moved(p, move_offset(kind))) {
                    r is Err && final(self).cursor_view() == Some(p)
                } else {
                    r is Ok && final(self).cursor_view() == Some(moved(p, move_offset(kind)))
                },
            },
            final(self).field() == old(self).field(),
            final(self).bag_view() == old(self).bag_view(),
            final(self).held_view() == old(self).held_view(),
            final(self).level_view() == old(self).level_view(),
    {
        let cursor = match self.cursor {
            Some(c) => c,
            None => return Ok(()),
        };
        proof {
            lemma_resolved_bounds(cursor);
        }
        let new_cursor = cursor.moved_by(kind.offset());
        if new_cursor.cells().is_none() {
            return Err(());
        }
        if self.matrix.is_clipping(&new_cursor) {
            return Err(());
        }
        self.cursor = Some(new_cursor);
        Ok(())
    }

    /// Turns the falling piece one step in direction `kind`, trying the turned
    /// piece in place first and then moved by each of `kicks` in order; the first
    /// attempt that does not clip is kept (a kick that would take the position
    /// beyond `isize` is passed over). Fails, leaving the piece unchanged, when
    /// every attempt clips or there is no falling piece.
    pub fn rotate_cursor(&mut self, kind: RotateKind, kicks: &Vec<Offset>) -> (r: Result<(), ()>)
        requires
            old(self).wf(),
        ensures
            final(self).wf(),
            match old(self).cursor_view() {
                None => r is Err && final(self).cursor_view() is None,
                Some(p) => match rotation_outcome(old(self).field(), p, kind, kicks@.map_values(|o: Offset| vec2_of(o))) {
                    Some(q) => r is Ok && final(self).cursor_view() == Some(q),
                    None => r is Err && final(self).cursor_view() == Some(p),
                },
            },
            final(self).field() == old(self).field(),
            final(self).bag_view() == old(self).bag_view(),
            final(self).held_view() == old(self).held_view(),
            final(self).level_view() == old(self).level_view(),
    {
        let cursor = match self.cursor {
            Some(c) => c,
            None => return Err(()),
        };
        proof {
            lemma_resolved_bounds(cursor);
        }
        let ghost ks = kicks@.map_values(|o: Offset| vec2_of(o));
        let turned = cursor.rotated_by(kind);
        if !self.matrix.is_clipping(&turned) {
            self.cursor = Some(turned);
            return Ok(());
        }
        let mut i: usize = 0;
        while i < kicks.len()
            invariant
                self.wf(),
                self.cursor == Some(cursor),
                self.matrix@ == old(self).matrix@,
                self.bag@ == old(self).bag@,
                self.held_cursor == old(self).held_cursor,
                self.level == old(self).level,
                old(self).cursor == Some(cursor),
                turned.position == cursor.position,
                turned == (Piece { rotation: rotation_after(cursor.rotation, kind), ..cursor }),
                clipping(self.matrix@, turned),
                ks == kicks@.map_values(|o: Offset| vec2_of(o)),
                i <= kicks.len(),
                kick_search(self.matrix@, turned, ks, 0) == kick_search(self.matrix@, turned, ks, i as int),
            decreases kicks.len() - i,
        {
            assert(ks[i as int] == vec2_of(kicks@[i as int]));
            if let Some(candidate) = try_moved(&turned, kicks[i]) {
                if !self.matrix.is_clipping(&candidate) {
                    self.cursor = Some(candidate);
                    return Ok(());
                }
            }
            i = i + 1;
        }
        Err(())
    }
}

/// The field `v` with each of the cells `cs` set to `c`.
pub open spec fn placed(v: Seq<Cell>, cs: Seq<Coordinate>, c: Color) -> Seq<Cell>
    decreases cs.len(),
{
    if cs.len() == 0 {
        v
    } else {
        placed(v, cs.drop_last(), c).update(cell_index(cs.last()), Some(c))
    }
}

/// Gravity interval, in nanoseconds, after `steps` of the `steps_total` factor
/// applications of `(0.8 - 0.007 * steps_total)`, each rounded down.
pub open spec fn gravity_nanos(steps: nat, steps_total: int) -> int
    decreases steps,
{
    if steps == 0 {
        NANOS_PER_SECOND as int
    } else {
        gravity_nanos((steps - 1) as nat, steps_total) * (800 - 7 * steps_total) / 1000
    }
}

/// The gravity interval at `level`: `(0.8 - (level - 1) * 0.007) ^ (level - 1)`
/// seconds, in nanoseconds, each factor applied with rounding down.
pub open spec fn drop_nanos(level: int) -> int {
    gravity_nanos((level - 1) as nat, level - 1)
}

/// The coordinate of the `i`-th cell in row-major order.
pub open spec fn coordinate_at(i: int) -> Coordinate {
    Coordinate { x: (i % WIDTH as int) as usize, y: (i / WIDTH as int) as usize }
}

impl Engine {
    /// Writes the falling piece's cells into the field in its kind's color and
    /// clears the falling piece. The piece must lie on the field over empty cells.
    pub fn place_cursor(&mut self)
        requires
            old(self).wf(),
            old(self).cursor_view() matches Some(p) && placeable(old(self).field(), p),
        ensures
            final(self).wf(),
            final(self).cursor_view() is None,
            final(self).field() == placed(
                old(self).field(),
                piece_cells(old(self).cursor_view()->0)->0,
                color_of(old(self).cursor_view()->0.kind),
            ),
            final(self).bag_view() == old(self).bag_view(),
            final(self).held_view() == old(self).held_view(),
            final(self).level_view() == old(self).level_view(),
    {
        let cursor = self.cursor.take().unwrap();
        let color = cursor.kind.color();
        let cells = cursor.cells().unwrap();
        let ghost v = self.matrix@;
        let mut i: usize = 0;
        while i < cells.len()
            invariant
                self.wf(),
                self.cursor is None,
                self.bag@ == old(self).bag@,
                self.held_cursor == old(self).held_cursor,
                self.level == old(self).level,
                cells@.len() == 4,
                piece_cells(cursor) == Some(cells@),
                placeable(v, cursor),
                i <= 4,
                self.matrix@ == placed(v, cells@.take(i as int), color),
            decreases 4 - i,
        {
            let c = cells[i];
            assert(on_field(cells@[i as int]));
            self.matrix.set(c, Some(color));
            proof {
                assert(cells@.take(i + 1).drop_last() =~= cells@.take(i as int));
            }
            i = i + 1;
        }
        proof {
            assert(cells@.take(4) =~= cells@);
        }
    }

    /// Removes the full rows from the field. Where there are any, `animation` is
    /// first called once with their indices, ascending, while the field still
    /// holds them; without full rows it is not called. Returns the indices.
    pub fn line_clear<F: FnMut(&[usize])>(&mut self, mut animation: F) -> (r: Vec<usize>)
        requires
            old(self).wf(),
            forall|rows: &[usize]| #[trigger] animation.requires((rows,)),
        ensures
            final(self).wf(),
            r@ == full_rows(old(self).field(), HEIGHT as nat),
            final(self).field() == cleared(old(self).field(), r@),
            r@.len() == 0 ==> final(self).field() == old(self).field(),
            forall|y: int| 0 <= y < HEIGHT ==> !#[trigger] line_full(final(self).field(), y),
            final(self).cursor_view() == old(self).cursor_view(),
            final(self).bag_view() == old(self).bag_view(),
            final(self).held_view() == old(self).held_view(),
            final(self).level_view() == old(self).level_view(),
    {
        proof {
            crate::matrix::lemma_no_full_row_after_clear(self.matrix@);
        }
        let lines = self.matrix.full_lines();
        if lines.len() == 0 {
            return lines;
        }
        proof {
            lemma_full_rows_valid(self.matrix@, HEIGHT as nat);
        }
        animation(lines.as_slice());
        self.matrix.clear_lines(lines.as_slice());
        lines
    }

    /// Puts the falling piece into the hold slot. With the slot empty a new piece
    /// is drawn; otherwise the held piece, as it was stored, falls again.
    pub fn hold_cursor(&mut self)
        requires
            old(self).wf(),
            old(self).cursor_view() is Some,
        ensures
            final(self).wf(),
            final(self).held_view() == old(self).cursor_view(),
            final(self).field() == old(self).field(),
            final(self).level_view() == old(self).level_view(),
            old(self).held_view() is Some ==> {
                &&& final(self).cursor_view() == old(self).held_view()
                &&& final(self).bag_view() == old(self).bag_view()
            },
            old(self).held_view() is None && old(self).bag_view().len() > 0 ==> {
                &&& final(self).cursor_view() == Some(spawned(old(self).bag_view().last()))
                &&& final(self).bag_view() == old(self).bag_view().drop_last()
            },
            old(self).held_view() is None && old(self).bag_view().len() == 0 ==> {
                &&& final(self).cursor_view() matches Some(p)
                &&& final(self).cursor_view() == Some(spawned(p.kind))
                &&& is_full_set(final(self).bag_view().push(p.kind))
            },
    {
        let cursor = self.cursor.take();
        if self.held_cursor.is_none() {
            self.held_cursor = cursor;
            self.add_cursor();
        } else {
            self.cursor = self.held_cursor;
            self.held_cursor = cursor;
        }
    }

    /// The gravity interval at the current level, in nanoseconds.
    pub fn drop_time(&self) -> (r: u64)
        requires
            self.wf(),
        ensures
            r == drop_nanos(self.level_view()),
    {
        let level: u64 = (self.level - 1) as u64;
        let factor: u64 = 800 - 7 * level;
        let mut nanos: u64 = NANOS_PER_SECOND;
        let mut i: u64 = 0;
        while i < level
            invariant
                level <= 114,
                factor == 800 - 7 * level,
                i <= level,
                nanos == gravity_nanos(i as nat, level as int),
                nanos <= NANOS_PER_SECOND,
            decreases level - i,
        {
            proof {
                assert(nanos * factor <= NANOS_PER_SECOND * 800) by (nonlinear_arith)
                    requires
                        nanos <= NANOS_PER_SECOND,
                        factor <= 800,
                ;
                assert(nanos * factor / 1000 <= nanos) by (nonlinear_arith)
                    requires
                        factor <= 800,
                        factor >= 0,
                        nanos >= 0,
                ;
            }
            nanos = nanos * factor / 1000;
            i = i + 1;
        }
        nanos
    }

    /// Every cell of the field with its coordinate, in row-major order from the
    /// bottom-left corner.
    pub fn cells(&self) -> (r: Vec<(Coordinate, Cell)>)
        requires
            self.wf(),
        ensures
            r@.len() == SIZE,
            forall|i: int| 0 <= i < SIZE ==> #[trigger] r@[i] == (coordinate_at(i), self.field()[i]),
    {
        let mut out: Vec<(Coordinate, Cell)> = Vec::new();
        let mut position = Coordinate::origin();
        let mut i: usize = 0;
        while i < SIZE
            invariant
                self.wf(),
                i <= SIZE,
                position == coordinate_at(i as int),
                out@.len() == i,
                forall|j: int| 0 <= j < i ==> #[trigger] out@[j] == (coordinate_at(j), self.field()[j]),
            decreases SIZE - i,
        {
            assert(on_field(position) && cell_index(position) == i);
            out.push((position, self.matrix.index(position)));
            position.grid_inc();
            i = i + 1;
        }
        out
    }

    /// Whether there is a falling piece and it lies on the field over empty cells,
    /// so that `place_cursor` may be called.
    pub fn can_place_cursor(&self) -> (r: bool)
        requires
            self.wf(),
        ensures
            r == (self.cursor_view() matches Some(p) && placeable(self.field(), p)),
    {
        match self.cursor {
            None => false,
            Some(cursor) => self.matrix.is_placeable(&cursor),
        }
    }

    /// The falling piece's cells, color, kind and rotation state.
    pub fn cursor_info(&self) -> (r: Option<(Vec<Coordinate>, Color, Kind, Rotation)>)
        requires
            self.wf(),
        ensures
            match self.cursor_view() {
                None => r is None,
                Some(p) => r matches Some(info) && Some(info.0@) == piece_cells(p) && info.1 == color_of(p.kind)
                    && info.2 == p.kind && info.3 == p.rotation,
            },
    {
        match self.cursor {
            None => None,
            Some(cursor) => match cursor.cells() {
                None => None,
                Some(cells) => Some((cells, cursor.kind.color(), cursor.kind, cursor.rotation)),
            },
        }
    }

    /// The held piece's shape offsets at rotation N and its color.
    pub fn held_cursor_info(&self) -> (r: Option<(Vec<Offset>, Color)>)
        requires
            self.wf(),
        ensures
            match self.held_view() {
                None => r is None,
                Some(p) => r matches Some(info) && info.1 == color_of(p.kind) && info.0@.len() == 4
                    && forall|i: int| 0 <= i < 4 ==> #[trigger] vec2_of(info.0@[i]) == shape(p.kind)[i],
            },
    {
        match self.held_cursor {
            None => None,
            Some(held) => Some((held.default_cells(), held.kind.color())),
        }
    }
}

impl Default for Engine {
    fn default() -> (r: Engine)
        ensures
            r.wf(),
            r.field() == empty_cells(),
            r.bag_view().len() == 0,
            r.cursor_view() is None,
            r.held_view() is None,
            r.level_view() == 1,
    {
        Engine::new()
    }
}

/// A well-formed engine's field holds `WIDTH * HEIGHT` cells.
pub proof fn lemma_field_size(e: Engine)
    requires
        e.wf(),
    ensures
        e.field().len() == SIZE,
{
}

/// On an empty field a piece clips exactly where it does not resolve to cells or
/// reaches above the top row.
proof fn lemma_empty_field_clipping(r: Piece)
    ensures
        clipping(empty_cells(), r) == !(piece_cells(r) is Some && forall|i: int|
            0 <= i < 4 ==> #[trigger] crate::piece::raw_cells(r)[i].1 < HEIGHT),
{
    let raw = crate::piece::raw_cells(r);
    if let Some(cs) = piece_cells(r) {
        if forall|i: int| 0 <= i < 4 ==> #[trigger] raw[i].1 < HEIGHT {
            assert forall|i: int| 0 <= i < 4 implies !#[trigger] crate::matrix::blocked(empty_cells(), cs[i]) by {
                assert(crate::piece::resolvable(raw[i]));
                assert(raw[i].1 < HEIGHT);
            }
        } else {
            let i = choose|i: int| 0 <= i < 4 && !(#[trigger] raw[i].1 < HEIGHT);
            assert(crate::piece::resolvable(raw[i]));
            assert(crate::matrix::blocked(empty_cells(), cs[i]));
        }
    }
}

/// A field without full rows has none to clear.
proof fn lemma_no_full_rows(v: Seq<Cell>, n: nat)
    requires
        forall|y: int| 0 <= y < n ==> !#[trigger] line_full(v, y),
    ensures
        full_rows(v, n) == Seq::<usize>::empty(),
    decreases n,
{
    if n > 0 {
        lemma_no_full_rows(v, (n - 1) as nat);
    }
}

/// A single I piece dropped from its spawn position onto an empty field lands on
/// the bottom row; placing it colors exactly the four cells of row 0 in columns
/// 3 to 6 cyan, and leaves no full row.
pub proof fn lemma_single_i_piece_drop(q: Piece)
    requires
        dropped(empty_cells(), spawned(Kind::I), q),
    ensures
        q == (Piece { kind: Kind::I, position: Offset { x: 4, y: 0 }, rotation: Rotation::N }),
        placeable(empty_cells(), q),
        ({
            let after = placed(empty_cells(), piece_cells(q)->0, Color::Cyan);
            &&& after.len() == SIZE
            &&& forall|i: int|
                0 <= i < SIZE ==> #[trigger] after[i] == if 3 <= i <= 6 {
                    Some(Color::Cyan)
                } else {
                    None
                }
            &&& full_rows(after, HEIGHT as nat) == Seq::<usize>::empty()
        }),
{
    let p = spawned(Kind::I);
    let k = choose|k: int|
        k >= 0 && falls_freely(empty_cells(), p, k) && q == moved(p, (0, -k)) && clipping(
            empty_cells(),
            moved(p, (0, -(k + 1))),
        );
    if k < 18 {
        let r = moved(p, (0, -(k + 1)));
        lemma_empty_field_clipping(r);
        assert(forall|i: int| 0 <= i < 4 ==> #[trigger] crate::piece::resolvable(crate::piece::raw_cells(r)[i]));
        assert(forall|i: int| 0 <= i < 4 ==> #[trigger] crate::piece::raw_cells(r)[i].1 < HEIGHT);
    }
    if k > 18 {
        let r = moved(p, (0, -19));
        assert(!clipping(empty_cells(), r));
        lemma_empty_field_clipping(r);
        assert(!crate::piece::resolvable(crate::piece::raw_cells(r)[0]));
    }
    assert(k == 18);
    let cs = piece_cells(q)->0;
    assert(forall|i: int| 0 <= i < 4 ==> #[trigger] crate::piece::resolvable(crate::piece::raw_cells(q)[i]));
    assert(cs =~= seq![
        Coordinate { x: 3, y: 0 },
        Coordinate { x: 4, y: 0 },
        Coordinate { x: 5, y: 0 },
        Coordinate { x: 6, y: 0 },
    ]);
    let after = placed(empty_cells(), cs, Color::Cyan);
    reveal_with_fuel(placed, 5);
    assert(cs.drop_last().drop_last().drop_last().drop_last() =~= Seq::<Coordinate>::empty());
    assert(after.len() == SIZE);
    assert forall|y: int| 0 <= y < HEIGHT implies !#[trigger] line_full(after, y) by {
        assert(after[0 + y * WIDTH] is None);
    }
    lemma_no_full_rows(after, HEIGHT as nat);
}

/// Whether `v` has its bottom row taken everywhere but columns `a` and `a + 1`,
/// and nothing above it.
pub open spec fn bottom_row_with_gap(v: Seq<Cell>, a: int) -> bool {
    &&& v.len() == SIZE
    &&& 0 <= a <= WIDTH - 2
    &&& forall|x: int| 0 <= x < WIDTH && x != a && x != a + 1 ==> (#[trigger] v[x]) is Some
    &&& v[a] is None
    &&& v[a + 1] is None
    &&& forall|i: int| WIDTH <= i < SIZE ==> (#[trigger] v[i]) is None
}

/// Over such a field an O piece standing over the gap clips exactly below the
/// bottom row or where its upper half would leave the top row.
proof fn lemma_o_over_gap_clipping(v: Seq<Cell>, a: int, r: Piece)
    requires
        bottom_row_with_gap(v, a),
        r.kind == Kind::O,
        r.position.x == a,
    ensures
        clipping(v, r) == (r.position.y < 0 || r.position.y >= HEIGHT - 1),
{
    let raw = crate::piece::raw_cells(r);
    assert(raw[0] == (a, r.position.y as int));
    assert(raw[1] == (a + 1, r.position.y as int));
    assert(raw[2] == (a, r.position.y + 1));
    assert(raw[3] == (a + 1, r.position.y + 1));
    if 0 <= r.position.y < HEIGHT - 1 {
        assert(forall|i: int| 0 <= i < 4 ==> #[trigger] crate::piece::resolvable(raw[i]));
        let cs = piece_cells(r)->0;
        assert forall|i: int| 0 <= i < 4 implies !#[trigger] crate::matrix::blocked(v, cs[i]) by {
            assert(cs[i] == crate::piece::to_coordinate(raw[i]));
        }
    } else if r.position.y >= HEIGHT - 1 {
        assert(forall|i: int| 0 <= i < 4 ==> #[trigger] crate::piece::resolvable(raw[i]));
        let cs = piece_cells(r)->0;
        assert(cs[2] == crate::piece::to_coordinate(raw[2]));
        assert(crate::matrix::blocked(v, cs[2]));
    } else {
        assert(!crate::piece::resolvable(raw[0]));
    }
}

/// Only the bottom row is full.
proof fn lemma_only_bottom_full(v: Seq<Cell>, n: nat)
    requires
        n >= 1,
        line_full(v, 0),
        forall|y: int| 1 <= y < n ==> !#[trigger] line_full(v, y),
    ensures
        full_rows(v, n) == seq![0usize],
    decreases n,
{
    if n > 1 {
        lemma_only_bottom_full(v, (n - 1) as nat);
    } else {
        assert(full_rows(v, 0) == Seq::<usize>::empty());
        assert(Seq::<usize>::empty().push(0usize) =~= seq![0usize]);
    }
}

/// An O piece over a two-cell gap in an otherwise full bottom row (with nothing
/// above it) drops into the gap and completes that row: row 0 is then the one
/// full row, and clearing it leaves only the upper half of the O piece, on the
/// bottom row.
pub proof fn lemma_o_piece_fills_gap(v: Seq<Cell>, a: int, p: Piece, q: Piece)
    requires
        bottom_row_with_gap(v, a),
        p.kind == Kind::O,
        p.position.x == a,
        0 <= p.position.y < HEIGHT - 1,
        dropped(v, p, q),
    ensures
        q.position == (Offset { x: a as isize, y: 0 }),
        placeable(v, q),
        ({
            let after = placed(v, piece_cells(q)->0, Color::Yellow);
            &&& full_rows(after, HEIGHT as nat) == seq![0usize]
            &&& forall|i: int|
                0 <= i < SIZE ==> #[trigger] cleared(after, seq![0usize])[i] == if i == a || i == a + 1 {
                    Some(Color::Yellow)
                } else {
                    None
                }
        }),
{
    let h = p.position.y as int;
    let k = choose|k: int|
        k >= 0 && falls_freely(v, p, k) && q == moved(p, (0, -k)) && clipping(v, moved(p, (0, -(k + 1))));
    if k < h {
        lemma_o_over_gap_clipping(v, a, moved(p, (0, -(k + 1))));
    }
    if k > h {
        assert(!clipping(v, moved(p, (0, -(h + 1)))));
        lemma_o_over_gap_clipping(v, a, moved(p, (0, -(h + 1))));
    }
    assert(k == h);
    let raw = crate::piece::raw_cells(q);
    assert(raw[0] == (a, 0int) && raw[1] == (a + 1, 0int) && raw[2] == (a, 1int) && raw[3] == (a + 1, 1int));
    assert(forall|i: int| 0 <= i < 4 ==> #[trigger] crate::piece::resolvable(raw[i]));
    let cs = piece_cells(q)->0;
    assert(cs =~= seq![
        Coordinate { x: a as usize, y: 0 },
        Coordinate { x: (a + 1) as usize, y: 0 },
        Coordinate { x: a as usize, y: 1 },
        Coordinate { x: (a + 1) as usize, y: 1 },
    ]);
    let after = placed(v, cs, Color::Yellow);
    reveal_with_fuel(placed, 5);
    assert(cs.drop_last().drop_last().drop_last().drop_last() =~= Seq::<Coordinate>::empty());
    assert(after.len() == SIZE);
    assert(line_full(after, 0)) by {
        assert forall|x: int| 0 <= x < WIDTH implies (#[trigger] after[x + 0 * WIDTH]) is Some by {
            assert(x + 0 * WIDTH == x);
        }
    }
    assert forall|y: int| 1 <= y < HEIGHT implies !#[trigger] line_full(after, y) by {
        let x: int = if a == 0 { 9 } else { 0 };
        assert(after[x + y * WIDTH] is None);
    }
    lemma_only_bottom_full(after, HEIGHT as nat);
    assert(seq![0usize].drop_last() =~= Seq::<usize>::empty());
    assert(seq![0usize].last() == 0usize);
    assert(cleared(after, seq![0usize]) == cleared(remove_row(after, 0), Seq::<usize>::empty()));
    assert forall|i: int| 0 <= i < SIZE implies #[trigger] cleared(after, seq![0usize])[i] == if i == a || i == a + 1 {
        Some(Color::Yellow)
    } else {
        None
    } by {
        assert(remove_row(after, 0)[i] == if i < SIZE - WIDTH { after[i + WIDTH] } else { None });
    }
}

/// The full rows are ascending and name rows of the field.
proof fn lemma_full_rows_valid(v: Seq<Cell>, n: nat)
    requires
        n <= HEIGHT,
    ensures
        valid_rows(full_rows(v, n)),
        forall|i: int| 0 <= i < full_rows(v, n).len() ==> #[trigger] full_rows(v, n)[i] < n,
    decreases n,
{
    if n > 0 {
        lemma_full_rows_valid(v, (n - 1) as nat);
    }
}

/// Every cell written by `placed` holds the color afterwards.
proof fn lemma_placed_holds(v: Seq<Cell>, cs: Seq<Coordinate>, c: Color, j: int)
    requires
        v.len() == SIZE,
        0 <= j < cs.len(),
        forall|k: int| 0 <= k < cs.len() ==> on_field(#[trigger] cs[k]),
    ensures
        placed(v, cs, c).len() == SIZE,
        placed(v, cs, c)[cell_index(cs[j])] == Some(c),
    decreases cs.len(),
{
    lemma_placed_len(v, cs, c);
    let rest = cs.drop_last();
    assert forall|k: int| 0 <= k < rest.len() implies on_field(#[trigger] rest[k]) by {
        assert(rest[k] == cs[k]);
    }
    lemma_placed_len(v, rest, c);
    if j < cs.len() - 1 {
        assert(rest[j] == cs[j]);
        lemma_placed_holds(v, rest, c, j);
    }
}

proof fn lemma_placed_len(v: Seq<Cell>, cs: Seq<Coordinate>, c: Color)
    requires
        v.len() == SIZE,
        forall|k: int| 0 <= k < cs.len() ==> on_field(#[trigger] cs[k]),
    ensures
        placed(v, cs, c).len() == SIZE,
    decreases cs.len(),
{
    if cs.len() > 0 {
        assert forall|k: int| 0 <= k < cs.drop_last().len() implies on_field(#[trigger] cs.drop_last()[k]) by {
            assert(cs.drop_last()[k] == cs[k]);
        }
        lemma_placed_len(v, cs.drop_last(), c);
    }
}

/// Once a piece's cells have been placed into the field, any piece occupying
/// exactly those cells clips.
pub proof fn lemma_placed_cells_clip(v: Seq<Cell>, p: Piece, c: Color, q: Piece)
    requires
        v.len() == SIZE,
        placeable(v, p),
        piece_cells(q) == piece_cells(p),
    ensures
        clipping(placed(v, piece_cells(p)->0, c), q),
{
    let cs = piece_cells(p)->0;
    lemma_placed_holds(v, cs, c, 0);
    assert(crate::matrix::blocked(placed(v, cs, c), cs[0]));
}

/// A piece with a cell in column -1 or column `WIDTH` clips, whatever the field
/// holds; so a move that would put a cell there fails and leaves the falling
/// piece where it was.
pub proof fn lemma_off_side_clips(v: Seq<Cell>, p: Piece, i: int)
    requires
        0 <= i < 4,
        crate::piece::raw_cells(p)[i].0 == -1 || crate::piece::raw_cells(p)[i].0 == WIDTH,
    ensures
        clipping(v, p),
{
    assert(!crate::piece::resolvable(crate::piece::raw_cells(p)[i]));
}

/// A fresh piece resolves to cells.
proof fn lemma_spawn_resolves(kind: Kind)
    ensures
        piece_cells(spawned(kind)) is Some,
{
    let p = spawned(kind);
    assert forall|i: int| 0 <= i < 4 implies #[trigger] crate::piece::resolvable(crate::piece::raw_cells(p)[i]) by {
        if i == 0 {
        } else if i == 1 {
        } else if i == 2 {
        } else {
        }
    }
}

} // verus!
