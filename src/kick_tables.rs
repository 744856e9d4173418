//! Wall-kick candidates for each piece kind and rotation step.

use vstd::prelude::*;

use crate::geometry::Offset;
use crate::piece::{Kind, RotateKind, Rotation, Vec2, vec2_of, rotation_after};

verus! {

/// Clockwise kicks of the J, L, S, T and Z pieces, keyed by the starting state.
/// A counter-clockwise step from `r` uses the row of its destination state with
/// every sign flipped.
pub open spec fn std_table(r: Rotation) -> Seq<Vec2> {
    match r {
        Rotation::N => seq![(-1, 0), (-1, 1), (0, -2), (-1, -2)],
        Rotation::E => seq![(1, 0), (1, -1), (0, 2), (1, 2)],
        Rotation::S => seq![(1, 0), (1, 1), (0, -2), (1, -2)],
        Rotation::W => seq![(-1, 0), (-1, -1), (0, 2), (-1, 2)],
    }
}

/// Kicks of the I piece, keyed by the starting state and the direction.
pub open spec fn i_table(r: Rotation, kind: RotateKind) -> Seq<Vec2> {
    match (r, kind) {
        (Rotation::N, RotateKind::Clockwise) => seq![(-2, 0), (1, 0), (1, 2), (-2, -1)],
        (Rotation::N, RotateKind::CounterClockwise) => seq![(2, 0), (-1, 0), (-1, 2), (2, -1)],
        (Rotation::S, RotateKind::Clockwise) => seq![(2, 0), (-1, 0), (2, 1), (-1, -1)],
        (Rotation::S, RotateKind::CounterClockwise) => seq![(-2, 0), (1, 0), (-2, 1), (1, -1)],
        (Rotation::E, RotateKind::Clockwise) => seq![(-1, 0), (2, 0), (-1, 2), (2, -1)],
        (Rotation::E, RotateKind::CounterClockwise) => seq![(2, 0), (-1, 0), (2, 1), (-1, -2)],
        (Rotation::W, RotateKind::Clockwise) => seq![(-2, 0), (1, 0), (-2, 1), (1, -2)],
        (Rotation::W, RotateKind::CounterClockwise) => seq![(1, 0), (-2, 0), (1, 2), (-2, -1)],
    }
}

pub open spec fn negated(o: Vec2) -> Vec2 {
    (-o.0, -o.1)
}

/// The kick candidates, in the order in which they are tried, for a piece of
/// `kind` turning from `rotation` in direction `rotate_kind`.
pub open spec fn kicks_for(kind: Kind, rotation: Rotation, rotate_kind: RotateKind) -> Seq<Vec2> {
    match kind {
        Kind::O => seq![(0, 0)],
        Kind::I => i_table(rotation, rotate_kind),
        _ => match rotate_kind {
            RotateKind::Clockwise => std_table(rotation),
            RotateKind::CounterClockwise => std_table(
                rotation_after(rotation, RotateKind::CounterClockwise),
            ).map_values(|o: Vec2| negated(o)),
        },
    }
}

/// Whether `v` holds exactly the offsets `s`.
pub open spec fn offsets_are(v: Seq<Offset>, s: Seq<Vec2>) -> bool {
    v.len() == s.len() && forall|i: int| 0 <= i < s.len() ==> #[trigger] vec2_of(v[i]) == s[i]
}

/// One row of the shared table.
fn std_row(r: Rotation) -> (v: Vec<Offset>)
    ensures
        offsets_are(v@, std_table(r)),
{
    match r {
        Rotation::N => vec![Offset::new(-1, 0), Offset::new(-1, 1), Offset::new(0, -2), Offset::new(-1, -2)],
        Rotation::E => vec![Offset::new(1, 0), Offset::new(1, -1), Offset::new(0, 2), Offset::new(1, 2)],
        Rotation::S => vec![Offset::new(1, 0), Offset::new(1, 1), Offset::new(0, -2), Offset::new(1, -2)],
        Rotation::W => vec![Offset::new(-1, 0), Offset::new(-1, -1), Offset::new(0, 2), Offset::new(-1, 2)],
    }
}

/// One row of the I piece's table.
fn i_row(r: Rotation, kind: RotateKind) -> (v: Vec<Offset>)
    ensures
        offsets_are(v@, i_table(r, kind)),
{
    match (r, kind) {
        (Rotation::N, RotateKind::Clockwise) => vec![Offset::new(-2, 0), Offset::new(1, 0), Offset::new(1, 2), Offset::new(-2, -1)],
        (Rotation::N, RotateKind::CounterClockwise) => vec![Offset::new(2, 0), Offset::new(-1, 0), Offset::new(-1, 2), Offset::new(2, -1)],
        (Rotation::S, RotateKind::Clockwise) => vec![Offset::new(2, 0), Offset::new(-1, 0), Offset::new(2, 1), Offset::new(-1, -1)],
        (Rotation::S, RotateKind::CounterClockwise) => vec![Offset::new(-2, 0), Offset::new(1, 0), Offset::new(-2, 1), Offset::new(1, -1)],
        (Rotation::E, RotateKind::Clockwise) => vec![Offset::new(-1, 0), Offset::new(2, 0), Offset::new(-1, 2), Offset::new(2, -1)],
        (Rotation::E, RotateKind::CounterClockwise) => vec![Offset::new(2, 0), Offset::new(-1, 0), Offset::new(2, 1), Offset::new(-1, -2)],
        (Rotation::W, RotateKind::Clockwise) => vec![Offset::new(-2, 0), Offset::new(1, 0), Offset::new(-2, 1), Offset::new(1, -2)],
        (Rotation::W, RotateKind::CounterClockwise) => vec![Offset::new(1, 0), Offset::new(-2, 0), Offset::new(1, 2), Offset::new(-2, -1)],
    }
}

/// The super rotation system's kick lookup for one rotation attempt.
pub struct SrsPlus {
    piece_kind: Kind,
    rotation: Rotation,
    rotate_kind: RotateKind,
}

impl SrsPlus {
    /// Number of kick candidates of a piece other than O.
    pub const KICK_COUNT: u8 = 4;

    /// The kick lookup for a piece of `piece_kind` turning from `rotation` in
    /// direction `rotate_kind`.
    pub fn new(piece_kind: Kind, rotation: Rotation, rotate_kind: RotateKind) -> (r: SrsPlus)
        ensures
            r.kicks() == kicks_for(piece_kind, rotation, rotate_kind),
    {
        SrsPlus { piece_kind, rotation, rotate_kind }
    }

    /// The candidates that this lookup yields.
    pub closed spec fn kicks(&self) -> Seq<Vec2> {
        kicks_for(self.piece_kind, self.rotation, self.rotate_kind)
    }

    /// The kick candidates in the order in which they are tried.
    pub fn get_kicks(&self) -> (r: Vec<Offset>)
        ensures
            offsets_are(r@, self.kicks()),
    {
        match self.piece_kind {
            Kind::O => vec![Offset::zero()],
            Kind::I => self.get_i_kicks(),
            _ => self.get_std_kicks(),
        }
    }

    fn get_std_kicks(&self) -> (r: Vec<Offset>)
        requires
            self.piece_kind != Kind::O,
            self.piece_kind != Kind::I,
        ensures
            offsets_are(r@, self.kicks()),
    {
        let mut modifier: isize = 1;
        let mut rotation = self.rotation;
        if let RotateKind::CounterClockwise = self.rotate_kind {
            modifier = -1;
            rotation = rotation.add(self.rotate_kind);
        }
        let row = std_row(rotation);
        let ghost expected = self.kicks();
        let mut kicks: Vec<Offset> = Vec::new();
        let mut i: usize = 0;
        while i < Self::KICK_COUNT as usize
            invariant
                i <= 4,
                Self::KICK_COUNT == 4,
                offsets_are(row@, std_table(rotation)),
                modifier == 1 || modifier == -1,
                expected.len() == 4,
                forall|j: int|
                    0 <= j < 4 ==> #[trigger] expected[j] == (modifier * std_table(rotation)[j].0,
                        modifier * std_table(rotation)[j].1),
                kicks@.len() == i,
                forall|j: int| 0 <= j < i ==> #[trigger] vec2_of(kicks@[j]) == expected[j],
            decreases 4 - i,
        {
            let k = row[i];
            assert(vec2_of(k) == std_table(rotation)[i as int]);
            assert(-2 <= k.x <= 2 && -2 <= k.y <= 2) by {
                assert(std_table(rotation)[i as int].0 <= 2);
            }
            kicks.push(Offset::new(k.x * modifier, k.y * modifier));
            i = i + 1;
        }
        kicks
    }

    fn get_i_kicks(&self) -> (r: Vec<Offset>)
        requires
            self.piece_kind == Kind::I,
        ensures
            offsets_are(r@, self.kicks()),
    {
        let row = i_row(self.rotation, self.rotate_kind);
        let mut kicks: Vec<Offset> = Vec::new();
        let mut i: usize = 0;
        while i < Self::KICK_COUNT as usize
            invariant
                i <= 4,
                Self::KICK_COUNT == 4,
                offsets_are(row@, i_table(self.rotation, self.rotate_kind)),
                kicks@ == row@.take(i as int),
            decreases 4 - i,
        {
            kicks.push(row[i]);
            i = i + 1;
            proof {
                assert(kicks@ =~= row@.take(i as int));
            }
        }
        proof {
            assert(kicks@ =~= row@);
        }
        kicks
    }
}

} // verus!
