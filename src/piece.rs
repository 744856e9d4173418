//! Piece kinds, rotation states and the falling piece itself.

use vstd::prelude::*;

use crate::geometry::{Coordinate, Offset, WIDTH};
use crate::matrix::Color;

verus! {

/// Direction of a rotation step.
#[derive(Clone, Copy, Debug, PartialEq, Eq, Hash, Structural)]
pub enum RotateKind {
    Clockwise,
    CounterClockwise,
}

/// Rotation state of a piece; one clockwise step goes N, E, S, W and back to N.
#[derive(Clone, Copy, Debug, PartialEq, Eq, Hash, Structural)]
pub enum Rotation {
    N,
    E,
    S,
    W,
}

/// The seven piece kinds.
#[derive(Clone, Copy, Debug, PartialEq, Eq, Hash, Structural)]
pub enum Kind {
    I,
    O,
    T,
    S,
    Z,
    J,
    L,
}

/// Position of a rotation state in the clockwise cycle.
pub open spec fn rotation_index(r: Rotation) -> int {
    match r {
        Rotation::N => 0,
        Rotation::E => 1,
        Rotation::S => 2,
        Rotation::W => 3,
    }
}

/// The rotation state at position `i` (taken modulo 4) of the clockwise cycle.
pub open spec fn rotation_at(i: int) -> Rotation {
    let k = i % 4;
    if k == 0 {
        Rotation::N
    } else if k == 1 {
        Rotation::E
    } else if k == 2 {
        Rotation::S
    } else {
        Rotation::W
    }
}

/// Number of clockwise steps that one step of the given direction amounts to.
pub open spec fn steps(kind: RotateKind) -> int {
    match kind {
        RotateKind::Clockwise => 1,
        RotateKind::CounterClockwise => 3,
    }
}

/// The rotation state one step away from `r` in direction `kind`.
pub open spec fn rotation_after(r: Rotation, kind: RotateKind) -> Rotation {
    rotation_at(rotation_index(r) + steps(kind))
}

impl Rotation {
    /// One rotation step from `self` in direction `kind`.
    pub fn add(self, kind: RotateKind) -> (r: Rotation)
        ensures
            r == rotation_after(self, kind),
    {
        match (self, kind) {
            (Rotation::N, RotateKind::Clockwise) => Rotation::E,
            (Rotation::E, RotateKind::Clockwise) => Rotation::S,
            (Rotation::S, RotateKind::Clockwise) => Rotation::W,
            (Rotation::W, RotateKind::Clockwise) => Rotation::N,
            (Rotation::N, RotateKind::CounterClockwise) => Rotation::W,
            (Rotation::E, RotateKind::CounterClockwise) => Rotation::N,
            (Rotation::S, RotateKind::CounterClockwise) => Rotation::E,
            (Rotation::W, RotateKind::CounterClockwise) => Rotation::S,
        }
    }

    /// Correction added to the rotated cells of an I piece in this state.
    pub fn i_offset(&self) -> (r: Offset)
        ensures
            (r.x as int, r.y as int) == i_correction(*self),
    {
        match self {
            Rotation::N => Offset::zero(),
            Rotation::E => Offset::new(1, 0),
            Rotation::S => Offset::new(1, -1),
            Rotation::W => Offset::new(0, -1),
        }
    }
}

/// A pair of integers standing for an offset in specifications.
pub type Vec2 = (int, int);

pub open spec fn vec2_of(o: Offset) -> Vec2 {
    (o.x as int, o.y as int)
}

pub open spec fn vec2_add(a: Vec2, b: Vec2) -> Vec2 {
    (a.0 + b.0, a.1 + b.1)
}

/// `o` turned by the rotation `r`: each clockwise step maps `(x, y)` to `(y, -x)`.
pub open spec fn turn(o: Vec2, r: Rotation) -> Vec2 {
    match r {
        Rotation::N => o,
        Rotation::E => (o.1, -o.0),
        Rotation::S => (-o.0, -o.1),
        Rotation::W => (-o.1, o.0),
    }
}

/// The per-state correction of the I piece.
pub open spec fn i_correction(r: Rotation) -> Vec2 {
    match r {
        Rotation::N => (0, 0),
        Rotation::E => (1, 0),
        Rotation::S => (1, -1),
        Rotation::W => (0, -1),
    }
}

/// The four cells of a kind at rotation N, relative to its origin.
pub open spec fn shape(kind: Kind) -> Seq<Vec2> {
    match kind {
        Kind::O => seq![(0, 0), (1, 0), (0, 1), (1, 1)],
        Kind::I => seq![(-1, 0), (0, 0), (1, 0), (2, 0)],
        Kind::T => seq![(-1, 0), (0, 0), (1, 0), (0, 1)],
        Kind::L => seq![(-1, 0), (0, 0), (1, 0), (1, 1)],
        Kind::J => seq![(-1, 0), (0, 0), (1, 0), (-1, 1)],
        Kind::S => seq![(-1, 0), (0, 0), (0, 1), (1, 1)],
        Kind::Z => seq![(-1, 1), (0, 1), (0, 0), (1, 0)],
    }
}

pub open spec fn color_of(kind: Kind) -> Color {
    match kind {
        Kind::I => Color::Cyan,
        Kind::O => Color::Yellow,
        Kind::T => Color::Purple,
        Kind::S => Color::Green,
        Kind::Z => Color::Red,
        Kind::J => Color::Blue,
        Kind::L => Color::Orange,
    }
}

/// A shape offset of `kind` placed at rotation `r`: the O piece does not turn, the
/// I piece turns and then takes its correction.
pub open spec fn rotate_cell(kind: Kind, r: Rotation, o: Vec2) -> Vec2 {
    match kind {
        Kind::O => o,
        Kind::I => vec2_add(turn(o, r), i_correction(r)),
        _ => turn(o, r),
    }
}

impl Offset {
    /// This offset turned by the rotation `rotation`.
    pub fn mul_rotation(self, rotation: Rotation) -> (r: Offset)
        requires
            -isize::MAX <= self.x,
            -isize::MAX <= self.y,
        ensures
            vec2_of(r) == turn(vec2_of(self), rotation),
    {
        match rotation {
            Rotation::N => self,
            Rotation::E => Offset::new(self.y, -self.x),
            Rotation::S => Offset::new(-self.x, -self.y),
            Rotation::W => Offset::new(-self.y, self.x),
        }
    }
}

impl Kind {
    /// The four shape offsets of this kind at rotation N.
    pub fn cells(&self) -> (r: Vec<Offset>)
        ensures
            r@.len() == 4,
            forall|i: int| 0 <= i < 4 ==> #[trigger] vec2_of(r@[i]) == shape(*self)[i],
    {
        let v = match self {
            Kind::O => vec![Offset::new(0, 0), Offset::new(1, 0), Offset::new(0, 1), Offset::new(1, 1)],
            Kind::I => vec![Offset::new(-1, 0), Offset::new(0, 0), Offset::new(1, 0), Offset::new(2, 0)],
            Kind::T => vec![Offset::new(-1, 0), Offset::new(0, 0), Offset::new(1, 0), Offset::new(0, 1)],
            Kind::L => vec![Offset::new(-1, 0), Offset::new(0, 0), Offset::new(1, 0), Offset::new(1, 1)],
            Kind::J => vec![Offset::new(-1, 0), Offset::new(0, 0), Offset::new(1, 0), Offset::new(-1, 1)],
            Kind::S => vec![Offset::new(-1, 0), Offset::new(0, 0), Offset::new(0, 1), Offset::new(1, 1)],
            Kind::Z => vec![Offset::new(-1, 1), Offset::new(0, 1), Offset::new(0, 0), Offset::new(1, 0)],
        };
        v
    }

    /// The color in which cells of this kind are drawn and placed.
    pub fn color(&self) -> (r: Color)
        ensures
            r == color_of(*self),
    {
        match self {
            Kind::I => Color::Cyan,
            Kind::O => Color::Yellow,
            Kind::T => Color::Purple,
            Kind::S => Color::Green,
            Kind::Z => Color::Red,
            Kind::J => Color::Blue,
            Kind::L => Color::Orange,
        }
    }
}


/// Where a new piece appears: centered, with its cells in the top two rows of
/// the field.
pub const SPAWN_X: isize = 5;
pub const SPAWN_Y: isize = 18;

/// The falling piece: a kind at a position and a rotation state.
#[derive(Clone, Copy, Debug, PartialEq, Eq, Structural)]
pub struct Piece {
    pub kind: Kind,
    pub position: Offset,
    pub rotation: Rotation,
}

/// The four cells of `p` as integer pairs: shape, rotated, then shifted to its position.
pub open spec fn raw_cells(p: Piece) -> Seq<Vec2> {
    Seq::new(
        4,
        |i: int| vec2_add(rotate_cell(p.kind, p.rotation, shape(p.kind)[i]), vec2_of(p.position)),
    )
}

/// Whether an integer cell is a non-negative coordinate inside the column bounds.
pub open spec fn resolvable(c: Vec2) -> bool {
    0 <= c.0 < WIDTH && 0 <= c.1
}

pub open spec fn to_coordinate(c: Vec2) -> Coordinate {
    Coordinate { x: c.0 as usize, y: c.1 as usize }
}

/// The cells that `p` occupies, or `None` where one of them has a negative
/// coordinate or lies outside the column bounds.
pub open spec fn piece_cells(p: Piece) -> Option<Seq<Coordinate>> {
    if forall|i: int| 0 <= i < 4 ==> #[trigger] resolvable(raw_cells(p)[i]) {
        Some(raw_cells(p).map_values(|c: Vec2| to_coordinate(c)))
    } else {
        None
    }
}

/// `p` shifted by `o`.
pub open spec fn moved(p: Piece, o: Vec2) -> Piece {
    Piece {
        position: Offset { x: (p.position.x + o.0) as isize, y: (p.position.y + o.1) as isize },
        ..p
    }
}

/// Whether `p` shifted by `o` keeps its position within `isize`.
pub open spec fn can_move(p: Piece, o: Vec2) -> bool {
    isize::MIN <= p.position.x + o.0 <= isize::MAX && isize::MIN <= p.position.y + o.1 <= isize::MAX
}

/// The position at which a piece of `kind` appears.
pub open spec fn spawn_position(kind: Kind) -> Offset {
    match kind {
        Kind::I | Kind::O => Offset { x: (SPAWN_X - 1) as isize, y: SPAWN_Y },
        _ => Offset { x: SPAWN_X, y: SPAWN_Y },
    }
}

pub open spec fn spawned(kind: Kind) -> Piece {
    Piece { kind, position: spawn_position(kind), rotation: Rotation::N }
}

/// Every shape offset lies within two cells of the origin on both axes.
proof fn lemma_shape_small(kind: Kind, i: int)
    requires
        0 <= i < 4,
    ensures
        -2 <= shape(kind)[i].0 <= 2,
        -2 <= shape(kind)[i].1 <= 2,
{
    if i == 0 {
    } else if i == 1 {
    } else if i == 2 {
    } else {
    }
}

impl Piece {
    /// A fresh piece of `kind` at the spawn position, in rotation state N.
    pub fn new(kind: Kind) -> (r: Piece)
        ensures
            r == spawned(kind),
    {
        let position = match kind {
            Kind::I | Kind::O => Offset::new(SPAWN_X - 1, SPAWN_Y),
            _ => Offset::new(SPAWN_X, SPAWN_Y),
        };
        Piece { kind, position, rotation: Rotation::N }
    }

    /// This piece shifted by `offset`; no bound is checked.
    pub fn moved_by(&self, offset: Offset) -> (r: Piece)
        requires
            can_move(*self, vec2_of(offset)),
        ensures
            r == moved(*self, vec2_of(offset)),
    {
        Piece {
            kind: self.kind,
            position: Offset::new(self.position.x + offset.x, self.position.y + offset.y),
            rotation: self.rotation,
        }
    }

    /// This piece turned one step in direction `kind`; no bound is checked.
    pub fn rotated_by(&self, kind: RotateKind) -> (r: Piece)
        ensures
            r == (Piece { rotation: rotation_after(self.rotation, kind), ..*self }),
    {
        Piece { kind: self.kind, position: self.position, rotation: self.rotation.add(kind) }
    }

    /// A fresh piece of the same kind.
    pub fn reset(self) -> (r: Piece)
        ensures
            r == spawned(self.kind),
    {
        Piece::new(self.kind)
    }

    /// The shape offsets of this piece's kind at rotation N.
    pub fn default_cells(&self) -> (r: Vec<Offset>)
        ensures
            r@.len() == 4,
            forall|i: int| 0 <= i < 4 ==> #[trigger] vec2_of(r@[i]) == shape(self.kind)[i],
    {
        self.kind.cells()
    }

    /// A shape offset placed at this piece's rotation state.
    fn rotator(&self, offset: Offset) -> (r: Offset)
        requires
            -2 <= offset.x <= 2,
            -2 <= offset.y <= 2,
        ensures
            vec2_of(r) == rotate_cell(self.kind, self.rotation, vec2_of(offset)),
            -3 <= r.x <= 3,
            -3 <= r.y <= 3,
    {
        match self.kind {
            Kind::O => offset,
            Kind::I => {
                let t = offset.mul_rotation(self.rotation);
                let c = self.rotation.i_offset();
                Offset::new(t.x + c.x, t.y + c.y)
            },
            _ => offset.mul_rotation(self.rotation),
        }
    }

    /// A rotated offset shifted by this piece's position, as a coordinate when
    /// it is non-negative and inside the column bounds.
    fn positioner(&self, offset: Offset) -> (r: Option<Coordinate>)
        requires
            -3 <= offset.x <= 3,
            -3 <= offset.y <= 3,
        ensures
            match r {
                Some(c) => resolvable(vec2_add(vec2_of(offset), vec2_of(self.position)))
                    && c == to_coordinate(vec2_add(vec2_of(offset), vec2_of(self.position))),
                None => !resolvable(vec2_add(vec2_of(offset), vec2_of(self.position))),
            },
    {
        let x: i128 = offset.x as i128 + self.position.x as i128;
        let y: i128 = offset.y as i128 + self.position.y as i128;
        if x < 0 || y < 0 || x >= WIDTH as i128 {
            None
        } else {
            Some(Coordinate::new(x as usize, y as usize))
        }
    }

    /// The cells this piece occupies, in shape order; `None` where one of them
    /// cannot be a coordinate inside the column bounds.
    pub fn cells(&self) -> (r: Option<Vec<Coordinate>>)
        ensures
            match r {
                Some(v) => piece_cells(*self) == Some(v@),
                None => piece_cells(*self) is None,
            },
    {
        let shape_cells = self.kind.cells();
        let mut out: Vec<Coordinate> = Vec::new();
        let mut i: usize = 0;
        while i < 4
            invariant
                i <= 4,
                shape_cells@.len() == 4,
                forall|j: int| 0 <= j < 4 ==> #[trigger] vec2_of(shape_cells@[j]) == shape(self.kind)[j],
                out@.len() == i,
                forall|j: int| 0 <= j < i ==> #[trigger] resolvable(raw_cells(*self)[j]),
                forall|j: int| 0 <= j < i ==> #[trigger] out@[j] == to_coordinate(raw_cells(*self)[j]),
            decreases 4 - i,
        {
            let s = shape_cells[i];
            proof {
                let k = self.kind;
                assert(vec2_of(s) == shape(k)[i as int]);
                lemma_shape_small(k, i as int);
            }
            let rotated = self.rotator(s);
            match self.positioner(rotated) {
                Some(c) => out.push(c),
                None => {
                    assert(!resolvable(raw_cells(*self)[i as int]));
                    return None;
                },
            }
            i = i + 1;
        }
        proof {
            assert(out@ =~= raw_cells(*self).map_values(|c: Vec2| to_coordinate(c)));
        }
        Some(out)
    }
}

/// `p` after `n` rotation steps in direction `kind`, each as `rotated_by` makes it.
pub open spec fn turned_times(p: Piece, kind: RotateKind, n: nat) -> Piece
    decreases n,
{
    if n == 0 {
        p
    } else {
        let q = turned_times(p, kind, (n - 1) as nat);
        Piece { rotation: rotation_after(q.rotation, kind), ..q }
    }
}

/// Rotating an O piece, any number of steps in either direction, never changes
/// the cells it occupies.
pub proof fn lemma_o_rotation_keeps_cells(p: Piece, kind: RotateKind, n: nat)
    requires
        p.kind == Kind::O,
    ensures
        piece_cells(turned_times(p, kind, n)) == piece_cells(p),
    decreases n,
{
    lemma_turned_frame(p, kind, n);
    lemma_o_raw_cells(turned_times(p, kind, n), p);
}

/// Rotation steps keep the kind and the position.
proof fn lemma_turned_frame(p: Piece, kind: RotateKind, n: nat)
    ensures
        turned_times(p, kind, n).kind == p.kind,
        turned_times(p, kind, n).position == p.position,
    decreases n,
{
    if n > 0 {
        lemma_turned_frame(p, kind, (n - 1) as nat);
    }
}

/// Two O pieces at the same position have the same integer cells.
proof fn lemma_o_raw_cells(q: Piece, p: Piece)
    requires
        q.kind == Kind::O,
        p.kind == Kind::O,
        q.position == p.position,
    ensures
        raw_cells(q) == raw_cells(p),
{
    assert(raw_cells(q) =~= raw_cells(p));
}

/// Four rotation steps in one direction bring a piece back to where it was, so
/// it occupies its starting cells again.
pub proof fn lemma_four_rotations_restore_cells(p: Piece, kind: RotateKind)
    requires
        p.kind != Kind::I,
        p.kind != Kind::O,
    ensures
        turned_times(p, kind, 4) == p,
        piece_cells(turned_times(p, kind, 4)) == piece_cells(p),
{
    reveal_with_fuel(turned_times, 5);
}

} // verus!
