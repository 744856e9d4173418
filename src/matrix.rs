//! The playing field.

use vstd::prelude::*;

use crate::geometry::{Coordinate, WIDTH, HEIGHT, SIZE};
use crate::piece::{Piece, piece_cells};

verus! {

/// Color of an occupied cell, one per piece kind.
#[derive(Clone, Copy, PartialEq, Eq, Debug, Structural)]
pub enum Color {
    Yellow,
    Cyan,
    Purple,
    Orange,
    Blue,
    Green,
    Red,
}

/// A cell of the field: empty, or holding the color of the piece placed there.
pub type Cell = Option<Color>;

/// The field: `WIDTH * HEIGHT` cells in row-major order, bottom row first.
pub struct Matrix {
    cells: Vec<Cell>,
}

/// Position of a coordinate in the row-major cell sequence.
pub open spec fn cell_index(c: Coordinate) -> int {
    c.x + c.y * WIDTH
}

/// Whether a coordinate lies on the field.
pub open spec fn on_field(c: Coordinate) -> bool {
    c.x < WIDTH && c.y < HEIGHT
}

/// The sequence of cells of an empty field.
pub open spec fn empty_cells() -> Seq<Cell> {
    Seq::new(SIZE as nat, |i: int| None)
}

/// Whether the cell at `c` of the cell sequence `v` is off the field (beside,
/// above or below it) or taken by a piece.
pub open spec fn blocked(v: Seq<Cell>, c: Coordinate) -> bool {
    !on_field(c) || v[cell_index(c)] is Some
}

/// Whether `p` clips on the field `v`: its cells cannot be resolved, or one of
/// them is off the field or taken.
pub open spec fn clipping(v: Seq<Cell>, p: Piece) -> bool {
    match piece_cells(p) {
        None => true,
        Some(cs) => exists|i: int| 0 <= i < 4 && #[trigger] blocked(v, cs[i]),
    }
}

/// Whether every cell of `p` lies on the field `v` and is empty.
pub open spec fn placeable(v: Seq<Cell>, p: Piece) -> bool {
    match piece_cells(p) {
        None => false,
        Some(cs) => forall|i: int|
            0 <= i < 4 ==> on_field(#[trigger] cs[i]) && v[cell_index(cs[i])] is None,
    }
}

/// Whether every cell of row `y` is occupied.
pub open spec fn line_full(v: Seq<Cell>, y: int) -> bool {
    forall|x: int| 0 <= x < WIDTH ==> (#[trigger] v[x + y * WIDTH]) is Some
}

/// The full rows among the lowest `n`, in ascending order.
pub open spec fn full_rows(v: Seq<Cell>, n: nat) -> Seq<usize>
    decreases n,
{
    if n == 0 {
        Seq::empty()
    } else if line_full(v, n - 1) {
        full_rows(v, (n - 1) as nat).push((n - 1) as usize)
    } else {
        full_rows(v, (n - 1) as nat)
    }
}

/// The field `v` with row `y` removed: the rows above it move down by one and an
/// empty row comes in at the top.
pub open spec fn remove_row(v: Seq<Cell>, y: int) -> Seq<Cell> {
    Seq::new(
        SIZE as nat,
        |i: int|
            if i < y * WIDTH {
                v[i]
            } else if i < SIZE - WIDTH {
                v[i + WIDTH]
            } else {
                None
            },
    )
}

/// The field `v` with the rows `rows` removed, the highest first.
pub open spec fn cleared(v: Seq<Cell>, rows: Seq<usize>) -> Seq<Cell>
    decreases rows.len(),
{
    if rows.len() == 0 {
        v
    } else {
        cleared(remove_row(v, rows.last() as int), rows.drop_last())
    }
}

/// Whether `rows` is strictly increasing and names rows of the field.
pub open spec fn valid_rows(rows: Seq<usize>) -> bool {
    &&& forall|i: int| 0 <= i < rows.len() ==> #[trigger] rows[i] < HEIGHT
    &&& forall|i: int, j: int| 0 <= i < j < rows.len() ==> rows[i] < rows[j]
}

impl View for Matrix {
    type V = Seq<Cell>;

    closed spec fn view(&self) -> Seq<Cell> {
        self.cells@
    }
}

impl Matrix {
    /// Number of columns.
    pub const WIDTH: usize = WIDTH;

    /// Number of rows.
    pub const HEIGHT: usize = HEIGHT;

    /// Number of cells.
    pub const SIZE: usize = SIZE;

    /// Whether the field holds exactly `WIDTH * HEIGHT` cells.
    pub open spec fn wf(&self) -> bool {
        self@.len() == SIZE
    }

    /// An empty field.
    pub fn new() -> (r: Matrix)
        ensures
            r.wf(),
            r@ == empty_cells(),
    {
        let mut cells: Vec<Cell> = Vec::new();
        let mut i: usize = 0;
        while i < SIZE
            invariant
                i <= SIZE,
                cells@ == Seq::new(i as nat, |j: int| None::<Color>),
            decreases SIZE - i,
        {
            cells.push(None);
            i = i + 1;
            proof {
                assert(cells@ =~= Seq::new(i as nat, |j: int| None::<Color>));
            }
        }
        Matrix { cells }
    }

    /// Whether `coord` lies on the field.
    pub fn on_matrix(coord: Coordinate) -> (r: bool)
        ensures
            r == (coord.x < 10 && coord.y < 20),
            r == on_field(coord),
    {
        Self::valid_coord(coord) && coord.y < HEIGHT
    }

    /// Whether `coord` lies within the column bounds.
    pub fn valid_coord(coord: Coordinate) -> (r: bool)
        ensures
            r == (coord.x < WIDTH),
    {
        coord.x < WIDTH
    }

    fn indexing(coord: Coordinate) -> (r: usize)
        requires
            on_field(coord),
        ensures
            r == cell_index(coord),
            r < SIZE,
    {
        coord.x + coord.y * WIDTH
    }

    /// The cell at `coord`.
    pub fn index(&self, coord: Coordinate) -> (r: Cell)
        requires
            self.wf(),
            on_field(coord),
        ensures
            r == self@[cell_index(coord)],
    {
        self.cells[Self::indexing(coord)]
    }

    /// Sets the cell at `coord`.
    pub fn set(&mut self, coord: Coordinate, cell: Cell)
        requires
            old(self).wf(),
            on_field(coord),
        ensures
            final(self).wf(),
            final(self)@ == old(self)@.update(cell_index(coord), cell),
    {
        let i = Self::indexing(coord);
        self.cells.set(i, cell);
    }

    /// Whether `piece` clips: its cells cannot be resolved, or one of them lies
    /// off the field (beside, above or below it) or is already occupied.
    pub fn is_clipping(&self, piece: &Piece) -> (r: bool)
        requires
            self.wf(),
        ensures
            r == clipping(self@, *piece),
    {
        let cells = match piece.cells() {
            Some(c) => c,
            None => return true,
        };
        let mut i: usize = 0;
        while i < 4
            invariant
                self.wf(),
                piece_cells(*piece) == Some(cells@),
                cells@.len() == 4,
                i <= 4,
                forall|j: int| 0 <= j < i ==> !#[trigger] blocked(self@, cells@[j]),
            decreases 4 - i,
        {
            let c = cells[i];
            if !Self::on_matrix(c) || self.index(c).is_some() {
                assert(blocked(self@, cells@[i as int]));
                assert(piece_cells(*piece)->0 == cells@);
                return true;
            }
            i = i + 1;
        }
        false
    }

    /// Whether every cell of `piece` lies on the field and is empty.
    pub fn is_placeable(&self, piece: &Piece) -> (r: bool)
        requires
            self.wf(),
        ensures
            r == placeable(self@, *piece),
    {
        let cells = match piece.cells() {
            Some(c) => c,
            None => return false,
        };
        let mut i: usize = 0;
        while i < 4
            invariant
                self.wf(),
                piece_cells(*piece) == Some(cells@),
                cells@.len() == 4,
                i <= 4,
                forall|j: int|
                    0 <= j < i ==> on_field(#[trigger] cells@[j]) && self@[cell_index(cells@[j])] is None,
            decreases 4 - i,
        {
            let c = cells[i];
            if !(Self::on_matrix(c) && self.index(c).is_none()) {
                return false;
            }
            i = i + 1;
        }
        true
    }
}

impl Matrix {
    /// The rows of the field, bottom row first.
    pub fn lines(&self) -> (r: Vec<Vec<Cell>>)
        requires
            self.wf(),
        ensures
            r@.len() == HEIGHT,
            forall|y: int|
                0 <= y < HEIGHT ==> (#[trigger] r@[y])@ == self@.subrange(y * WIDTH, y * WIDTH + WIDTH),
    {
        let mut out: Vec<Vec<Cell>> = Vec::new();
        let mut y: usize = 0;
        while y < HEIGHT
            invariant
                self.wf(),
                y <= HEIGHT,
                out@.len() == y,
                forall|k: int|
                    0 <= k < y ==> (#[trigger] out@[k])@ == self@.subrange(k * WIDTH, k * WIDTH + WIDTH),
            decreases HEIGHT - y,
        {
            let mut line: Vec<Cell> = Vec::new();
            let mut x: usize = 0;
            while x < WIDTH
                invariant
                    self.wf(),
                    y < HEIGHT,
                    x <= WIDTH,
                    line@ == self@.subrange(y * WIDTH, y * WIDTH + x),
                decreases WIDTH - x,
            {
                line.push(self.cells[x + y * WIDTH]);
                x = x + 1;
                proof {
                    assert(line@ =~= self@.subrange(y * WIDTH, y * WIDTH + x));
                }
            }
            out.push(line);
            y = y + 1;
        }
        out
    }

    /// The indices of the full rows, in ascending order.
    pub fn full_lines(&self) -> (r: Vec<usize>)
        requires
            self.wf(),
        ensures
            r@ == full_rows(self@, HEIGHT as nat),
    {
        let lines = self.lines();
        let mut out: Vec<usize> = Vec::new();
        let mut y: usize = 0;
        while y < HEIGHT
            invariant
                self.wf(),
                y <= HEIGHT,
                lines@.len() == HEIGHT,
                forall|k: int|
                    0 <= k < HEIGHT ==> (#[trigger] lines@[k])@ == self@.subrange(k * WIDTH, k * WIDTH + WIDTH),
                out@ == full_rows(self@, y as nat),
            decreases HEIGHT - y,
        {
            let line = &lines[y];
            assert(line@ == self@.subrange(y * WIDTH, y * WIDTH + WIDTH));
            let mut full = true;
            let mut x: usize = 0;
            while x < WIDTH
                invariant
                    self.wf(),
                    y < HEIGHT,
                    x <= WIDTH,
                    line@ == self@.subrange(y * WIDTH, y * WIDTH + WIDTH),
                    full == (forall|k: int| 0 <= k < x ==> (#[trigger] self@[k + y * WIDTH]) is Some),
                decreases WIDTH - x,
            {
                assert(line@[x as int] == self@[x + y * WIDTH]);
                if line[x].is_none() {
                    full = false;
                }
                x = x + 1;
            }
            if full {
                out.push(y);
            }
            y = y + 1;
        }
        out
    }

    /// Removes row `y`: the rows above move down by one and an empty row comes in
    /// at the top.
    fn remove_line(&mut self, y: usize)
        requires
            old(self).wf(),
            y < HEIGHT,
        ensures
            final(self).wf(),
            final(self)@ == remove_row(old(self)@, y as int),
    {
        let ghost v = self@;
        let mut i: usize = y * WIDTH;
        while i < SIZE - WIDTH
            invariant
                self.wf(),
                v.len() == SIZE,
                y * WIDTH <= i <= SIZE - WIDTH,
                forall|k: int| 0 <= k < i ==> #[trigger] self@[k] == remove_row(v, y as int)[k],
                forall|k: int| i <= k < SIZE ==> #[trigger] self@[k] == v[k],
            decreases SIZE - i,
        {
            let c = self.cells[i + WIDTH];
            assert(remove_row(v, y as int)[i as int] == v[i + WIDTH]);
            self.cells.set(i, c);
            i = i + 1;
        }
        while i < SIZE
            invariant
                self.wf(),
                v.len() == SIZE,
                y < HEIGHT,
                SIZE - WIDTH <= i <= SIZE,
                forall|k: int| 0 <= k < i ==> #[trigger] self@[k] == remove_row(v, y as int)[k],
            decreases SIZE - i,
        {
            assert(remove_row(v, y as int)[i as int] == None::<Color>);
            self.cells.set(i, None);
            i = i + 1;
        }
        proof {
            assert(self@ =~= remove_row(v, y as int));
        }
    }

    /// Removes the rows `indices` (ascending, without repeats), the highest first,
    /// each time moving the rows above it down by one and filling the top with an
    /// empty row. An empty list leaves the field unchanged.
    pub fn clear_lines(&mut self, indices: &[usize])
        requires
            old(self).wf(),
            valid_rows(indices@),
        ensures
            final(self).wf(),
            final(self)@ == cleared(old(self)@, indices@),
            indices@.len() == 0 ==> final(self)@ == old(self)@,
    {
        let ghost target = cleared(self@, indices@);
        let mut k: usize = indices.len();
        proof {
            assert(indices@.take(k as int) =~= indices@);
        }
        while k > 0
            invariant
                self.wf(),
                k <= indices@.len(),
                valid_rows(indices@),
                cleared(self@, indices@.take(k as int)) == target,
            decreases k,
        {
            let line = indices[k - 1];
            proof {
                let t = indices@.take(k as int);
                assert(t.last() == line);
                assert(t.drop_last() =~= indices@.take(k - 1));
            }
            self.remove_line(line);
            k = k - 1;
        }
        proof {
            assert(indices@.take(0) =~= Seq::<usize>::empty());
        }
    }
}

/// Clearing no rows leaves the field as it is; clearing two rows `a < b` keeps
/// the rows below `a`, moves the rows between them down by one and the rows
/// above `b` down by two, and leaves the top two rows empty.
pub proof fn lemma_clear_two_rows(v: Seq<Cell>, rows: Seq<usize>, a: int, b: int)
    requires
        v.len() == SIZE,
        0 <= a < b < HEIGHT,
        rows == seq![a as usize, b as usize],
    ensures
        cleared(v, Seq::empty()) == v,
        valid_rows(rows),
        forall|x: int, y: int|
            0 <= x < WIDTH && 0 <= y < HEIGHT ==> #[trigger] cleared(v, rows)[x + y * WIDTH]
                == if y < a {
                v[x + y * WIDTH]
            } else if y < b - 1 {
                v[x + (y + 1) * WIDTH]
            } else if y < HEIGHT - 2 {
                v[x + (y + 2) * WIDTH]
            } else {
                None
            },
{
    assert(rows.drop_last() =~= seq![a as usize]);
    assert(seq![a as usize].drop_last() =~= Seq::<usize>::empty());
    let w = remove_row(v, b);
    assert(rows.last() == b as usize);
    assert(seq![a as usize].last() == a as usize);
    assert(cleared(w, seq![a as usize]) == cleared(remove_row(w, a), Seq::<usize>::empty()));
    assert(cleared(v, rows) == cleared(w, seq![a as usize]));
    assert(cleared(v, rows) == remove_row(w, a));
    assert forall|x: int, y: int| 0 <= x < WIDTH && 0 <= y < HEIGHT implies #[trigger] cleared(v, rows)[x + y * WIDTH]
        == if y < a {
        v[x + y * WIDTH]
    } else if y < b - 1 {
        v[x + (y + 1) * WIDTH]
    } else if y < HEIGHT - 2 {
        v[x + (y + 2) * WIDTH]
    } else {
        None
    } by {
        let i = x + y * WIDTH;
        assert(remove_row(w, a)[i] == if i < a * WIDTH { w[i] } else if i < SIZE - WIDTH { w[i + WIDTH] } else { None });
        if i >= a * WIDTH && i < SIZE - WIDTH {
            let j = i + WIDTH;
            assert(w[j] == if j < b * WIDTH { v[j] } else if j < SIZE - WIDTH { v[j + WIDTH] } else { None });
        } else if i < a * WIDTH {
            assert(w[i] == if i < b * WIDTH { v[i] } else if i < SIZE - WIDTH { v[i + WIDTH] } else { None });
        }
    }
}

/// Row `y` of the field `v`.
pub open spec fn row_of(v: Seq<Cell>, y: int) -> Seq<Cell> {
    v.subrange(y * WIDTH, y * WIDTH + WIDTH)
}

/// The rows of the field `v`, bottom row first.
pub open spec fn row_seq(v: Seq<Cell>) -> Seq<Seq<Cell>> {
    Seq::new(HEIGHT as nat, |y: int| row_of(v, y))
}

/// A row of empty cells.
pub open spec fn empty_row() -> Seq<Cell> {
    Seq::new(WIDTH as nat, |x: int| None)
}

/// The rows of `v` below row `n` that `rows` does not list, bottom first.
pub open spec fn kept_rows(v: Seq<Cell>, rows: Seq<usize>, n: nat) -> Seq<Seq<Cell>>
    decreases n,
{
    if n == 0 {
        Seq::empty()
    } else if rows.contains((n - 1) as usize) {
        kept_rows(v, rows, (n - 1) as nat)
    } else {
        kept_rows(v, rows, (n - 1) as nat).push(row_of(v, n - 1))
    }
}

/// `k` empty rows.
pub open spec fn empty_rows(k: nat) -> Seq<Seq<Cell>> {
    Seq::new(k, |i: int| empty_row())
}

proof fn lemma_cleared_len(v: Seq<Cell>, rows: Seq<usize>)
    requires
        v.len() == SIZE,
    ensures
        cleared(v, rows).len() == SIZE,
    decreases rows.len(),
{
    if rows.len() > 0 {
        lemma_cleared_len(remove_row(v, rows.last() as int), rows.drop_last());
    }
}

/// The rows after removing row `b`.
proof fn lemma_remove_row_rows(v: Seq<Cell>, b: int, y: int)
    requires
        v.len() == SIZE,
        0 <= b < HEIGHT,
        0 <= y < HEIGHT,
    ensures
        row_of(remove_row(v, b), y) == if y < b {
            row_of(v, y)
        } else if y < HEIGHT - 1 {
            row_of(v, y + 1)
        } else {
            empty_row()
        },
{
    let w = remove_row(v, b);
    if y < b {
        assert(row_of(w, y) =~= row_of(v, y));
    } else if y < HEIGHT - 1 {
        assert(row_of(w, y) =~= row_of(v, y + 1));
    } else {
        assert(row_of(w, y) =~= empty_row());
    }
}

/// `kept_rows` reads only the rows below `n` and which of them are listed.
proof fn lemma_kept_rows_local(v: Seq<Cell>, rows: Seq<usize>, w: Seq<Cell>, others: Seq<usize>, n: nat)
    requires
        forall|y: int| 0 <= y < n ==> #[trigger] row_of(v, y) == row_of(w, y),
        forall|y: int| 0 <= y < n ==> rows.contains(y as usize) == others.contains(#[trigger] (y as usize)),
    ensures
        kept_rows(v, rows, n) == kept_rows(w, others, n),
    decreases n,
{
    if n > 0 {
        lemma_kept_rows_local(v, rows, w, others, (n - 1) as nat);
        assert(row_of(v, n - 1) == row_of(w, n - 1));
        assert(rows.contains((n - 1) as usize) == others.contains(((n - 1) as int) as usize));
    }
}

/// Above row `m`, where no row is listed up to `n`, every row is kept.
proof fn lemma_kept_rows_run(v: Seq<Cell>, rows: Seq<usize>, m: nat, n: nat)
    requires
        m <= n,
        forall|y: int| m <= y < n ==> !rows.contains(#[trigger] (y as usize)),
    ensures
        kept_rows(v, rows, n) == kept_rows(v, rows, m) + Seq::new((n - m) as nat, |i: int| row_of(v, m + i)),
    decreases n,
{
    if n > m {
        lemma_kept_rows_run(v, rows, m, (n - 1) as nat);
        assert(!rows.contains(((n - 1) as int) as usize));
        assert(kept_rows(v, rows, m) + Seq::new((n - m) as nat, |i: int| row_of(v, m + i)) =~= (kept_rows(v, rows, m)
            + Seq::new((n - 1 - m) as nat, |i: int| row_of(v, m + i))).push(row_of(v, n - 1)));
    } else {
        assert(kept_rows(v, rows, m) + Seq::new(0, |i: int| row_of(v, m + i)) =~= kept_rows(v, rows, m));
    }
}

/// Clearing the rows `rows` (ascending, without repeats) leaves the rows that are
/// not listed, in their order, followed by as many empty rows as were cleared.
pub proof fn lemma_cleared_rows(v: Seq<Cell>, rows: Seq<usize>)
    requires
        v.len() == SIZE,
        valid_rows(rows),
    ensures
        cleared(v, rows).len() == SIZE,
        row_seq(cleared(v, rows)) == kept_rows(v, rows, HEIGHT as nat) + empty_rows(rows.len()),
    decreases rows.len(),
{
    lemma_cleared_len(v, rows);
    if rows.len() == 0 {
        lemma_kept_rows_run(v, rows, 0, HEIGHT as nat);
        assert(kept_rows(v, rows, 0) == Seq::<Seq<Cell>>::empty());
        assert(row_seq(v) =~= kept_rows(v, rows, HEIGHT as nat) + empty_rows(0));
    } else {
        let b = rows.last() as int;
        let rest = rows.drop_last();
        let w = remove_row(v, b);
        let k = rows.len();
        assert(valid_rows(rest)) by {
            assert forall|i: int, j: int| 0 <= i < j < rest.len() implies rest[i] < rest[j] by {
                assert(rest[i] == rows[i] && rest[j] == rows[j]);
            }
            assert forall|i: int| 0 <= i < rest.len() implies #[trigger] rest[i] < HEIGHT by {
                assert(rest[i] == rows[i]);
            }
        }
        assert forall|i: int| 0 <= i < rest.len() implies #[trigger] rest[i] < b by {
            assert(rest[i] == rows[i]);
            assert(rows[i] < rows[k - 1]);
        }
        lemma_cleared_rows(w, rest);
        // the unlisted rows of `w`
        assert forall|y: int| b <= y < HEIGHT implies !rest.contains(#[trigger] (y as usize)) by {
            if rest.contains(y as usize) {
                let i = choose|i: int| 0 <= i < rest.len() && rest[i] == y as usize;
                assert(rest[i] < b);
            }
        }
        lemma_kept_rows_run(w, rest, b as nat, HEIGHT as nat);
        assert forall|y: int| 0 <= y < b implies #[trigger] row_of(w, y) == row_of(v, y) by {
            lemma_remove_row_rows(v, b, y);
        }
        assert forall|y: int| 0 <= y < b implies rest.contains(y as usize) == rows.contains(#[trigger] (y as usize)) by {
            if rows.contains(y as usize) {
                let i = choose|i: int| 0 <= i < rows.len() && rows[i] == y as usize;
                if i == k - 1 {
                } else {
                    assert(rest[i] == rows[i]);
                }
            }
            if rest.contains(y as usize) {
                let i = choose|i: int| 0 <= i < rest.len() && rest[i] == y as usize;
                assert(rows[i] == rest[i]);
            }
        }
        lemma_kept_rows_local(w, rest, v, rows, b as nat);
        let upper = Seq::new((HEIGHT - b) as nat, |i: int| row_of(w, b + i));
        let above = Seq::new((HEIGHT - b - 1) as nat, |i: int| row_of(v, b + 1 + i));
        assert forall|i: int| 0 <= i < HEIGHT - b implies #[trigger] upper[i] == if i < HEIGHT - b - 1 {
            above[i]
        } else {
            empty_row()
        } by {
            lemma_remove_row_rows(v, b, b + i);
        }
        assert(upper =~= above.push(empty_row()));
        // the unlisted rows of `v`
        assert(rows.contains(b as usize)) by {
            assert(rows[k - 1] == b as usize);
        }
        assert(kept_rows(v, rows, (b + 1) as nat) == kept_rows(v, rows, b as nat));
        assert forall|y: int| b + 1 <= y < HEIGHT implies !rows.contains(#[trigger] (y as usize)) by {
            if rows.contains(y as usize) {
                let i = choose|i: int| 0 <= i < rows.len() && rows[i] == y as usize;
                if i < k - 1 {
                    assert(rows[i] < rows[k - 1]);
                }
            }
        }
        lemma_kept_rows_run(v, rows, (b + 1) as nat, HEIGHT as nat);
        assert(Seq::new((HEIGHT - (b + 1)) as nat, |i: int| row_of(v, (b + 1) + i)) =~= above);
        let kv = kept_rows(v, rows, HEIGHT as nat);
        assert(kept_rows(w, rest, HEIGHT as nat) =~= kv.push(empty_row()));
        assert(kv.push(empty_row()) + empty_rows(rest.len()) =~= kv + empty_rows(k));
    }
}

/// Whether some cell of `row` is empty.
pub open spec fn has_gap(row: Seq<Cell>) -> bool {
    exists|x: int| 0 <= x < row.len() && (#[trigger] row[x]) is None
}

/// Row `y` is listed among the full rows below `n` exactly when it is full.
proof fn lemma_full_rows_contains(v: Seq<Cell>, n: nat, y: int)
    requires
        0 <= y < n,
        n <= HEIGHT,
    ensures
        full_rows(v, n).contains(y as usize) == line_full(v, y),
    decreases n,
{
    lemma_full_rows_bounded(v, (n - 1) as nat);
    if y < n - 1 {
        lemma_full_rows_contains(v, (n - 1) as nat, y);
        if line_full(v, n - 1) {
            assert(full_rows(v, n) == full_rows(v, (n - 1) as nat).push((n - 1) as usize));
            let f = full_rows(v, n);
            let g = full_rows(v, (n - 1) as nat);
            if f.contains(y as usize) {
                let i = choose|i: int| 0 <= i < f.len() && #[trigger] f[i] == y as usize;
                if i < f.len() - 1 {
                    assert(g[i] == y as usize);
                }
            }
            if g.contains(y as usize) {
                let i = choose|i: int| 0 <= i < g.len() && #[trigger] g[i] == y as usize;
                assert(f[i] == y as usize);
            }
        }
    } else {
        if line_full(v, y) {
            let s = full_rows(v, n);
            assert(s[s.len() - 1] == y as usize);
        } else {
            let f = full_rows(v, n);
            if f.contains(y as usize) {
                let i = choose|i: int| 0 <= i < f.len() && #[trigger] f[i] == y as usize;
                assert(full_rows(v, (n - 1) as nat)[i] < n - 1);
            }
        }
    }
}

/// The full rows below `n` are rows below `n`.
proof fn lemma_full_rows_bounded(v: Seq<Cell>, n: nat)
    requires
        n <= HEIGHT,
    ensures
        forall|i: int| 0 <= i < full_rows(v, n).len() ==> #[trigger] full_rows(v, n)[i] < n,
    decreases n,
{
    if n > 0 {
        lemma_full_rows_bounded(v, (n - 1) as nat);
        let prev = full_rows(v, (n - 1) as nat);
        if line_full(v, n - 1) {
            assert forall|i: int| 0 <= i < prev.len() + 1 implies #[trigger] prev.push((n - 1) as usize)[i] < n by {
                if i < prev.len() {
                    assert(prev.push((n - 1) as usize)[i] == prev[i]);
                }
            }
        }
    }
}

/// Rows kept from a field in which every unlisted row has a gap have gaps.
proof fn lemma_kept_rows_gaps(v: Seq<Cell>, rows: Seq<usize>, n: nat)
    requires
        n <= HEIGHT,
        forall|y: int| 0 <= y < n && !rows.contains(y as usize) ==> has_gap(#[trigger] row_of(v, y)),
    ensures
        forall|i: int| 0 <= i < kept_rows(v, rows, n).len() ==> has_gap(#[trigger] kept_rows(v, rows, n)[i]),
    decreases n,
{
    if n > 0 {
        lemma_kept_rows_gaps(v, rows, (n - 1) as nat);
        let prev = kept_rows(v, rows, (n - 1) as nat);
        if !rows.contains((n - 1) as usize) {
            assert(has_gap(row_of(v, n - 1)));
            assert forall|i: int| 0 <= i < prev.len() + 1 implies has_gap(#[trigger] prev.push(row_of(v, n - 1))[i]) by {
                if i < prev.len() {
                    assert(prev.push(row_of(v, n - 1))[i] == prev[i]);
                }
            }
        }
    }
}

/// Once its full rows are cleared, a field has no full row.
pub proof fn lemma_no_full_row_after_clear(v: Seq<Cell>)
    requires
        v.len() == SIZE,
    ensures
        forall|y: int| 0 <= y < HEIGHT ==> !#[trigger] line_full(cleared(v, full_rows(v, HEIGHT as nat)), y),
{
    let rows = full_rows(v, HEIGHT as nat);
    lemma_full_rows_bounded(v, HEIGHT as nat);
    assert(valid_rows(rows)) by {
        lemma_full_rows_sorted(v, HEIGHT as nat);
    }
    lemma_cleared_rows(v, rows);
    let after = cleared(v, rows);
    assert forall|y: int| 0 <= y < HEIGHT && !rows.contains(y as usize) implies has_gap(#[trigger] row_of(v, y)) by {
        lemma_full_rows_contains(v, HEIGHT as nat, y);
        let x = choose|x: int| 0 <= x < WIDTH && !((#[trigger] v[x + y * WIDTH]) is Some);
        assert(row_of(v, y)[x] == v[x + y * WIDTH]);
    }
    lemma_kept_rows_gaps(v, rows, HEIGHT as nat);
    let kept = kept_rows(v, rows, HEIGHT as nat);
    assert forall|y: int| 0 <= y < HEIGHT implies !#[trigger] line_full(after, y) by {
        let all = kept + empty_rows(rows.len());
        assert(row_seq(after)[y] == row_of(after, y));
        assert(row_seq(after).len() == HEIGHT);
        let x = if y < kept.len() {
            assert(has_gap(kept[y]));
            choose|x: int| 0 <= x < kept[y].len() && (#[trigger] kept[y][x]) is None
        } else {
            assert(all[y] == empty_row());
            0
        };
        assert(row_of(after, y)[x] == after[x + y * WIDTH]);
    }
}

/// The full rows are strictly increasing.
proof fn lemma_full_rows_sorted(v: Seq<Cell>, n: nat)
    requires
        n <= HEIGHT,
    ensures
        forall|i: int, j: int| 0 <= i < j < full_rows(v, n).len() ==> full_rows(v, n)[i] < full_rows(v, n)[j],
    decreases n,
{
    if n > 0 {
        lemma_full_rows_sorted(v, (n - 1) as nat);
        lemma_full_rows_bounded(v, (n - 1) as nat);
        let prev = full_rows(v, (n - 1) as nat);
        if line_full(v, n - 1) {
            let s2 = prev.push((n - 1) as usize);
            assert forall|i: int, j: int| 0 <= i < j < s2.len() implies s2[i] < s2[j] by {
                assert(s2[i] == prev[i]);
                if j < prev.len() {
                    assert(s2[j] == prev[j]);
                }
            }
        }
    }
}

} // verus!
