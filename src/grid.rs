//! The grid of locked cells: collision tests, locking a piece in place, and
//! removing full lines.

use vstd::prelude::*;

use crate::piece::{
    shape_height, shape_width, wf_shape, Case, Piece, GRID_HEIGHT, GRID_WIDTH,
};

verus! {

/// The grid, indexed by column then row; row zero is the top.
pub type Grid = [[Case; GRID_HEIGHT]; GRID_WIDTH];

/// The cell at column `x` and row `y` of the array.
pub open spec fn at(g: Grid, x: int, y: int) -> Case {
    g@[x]@[y]
}

/// Row `y` of the grid, from left to right.
pub open spec fn row(g: Grid, y: int) -> Seq<Case> {
    Seq::new(GRID_WIDTH as nat, |x: int| at(g, x, y))
}

/// The grid as rows from top to bottom, each from left to right. The
/// contracts of this crate speak of the grid through this view.
pub open spec fn rows(g: Grid) -> Seq<Seq<Case>> {
    Seq::new(GRID_HEIGHT as nat, |y: int| row(g, y))
}

/// The cell at column `x` and row `y` of a grid given as rows.
pub open spec fn cell(rs: Seq<Seq<Case>>, x: int, y: int) -> Case {
    rs[y][x]
}

/// Every cell of the grid is empty.
pub open spec fn is_empty_grid(rs: Seq<Seq<Case>>) -> bool {
    forall|x: int, y: int|
        0 <= x < GRID_WIDTH && 0 <= y < GRID_HEIGHT ==> #[trigger] cell(rs, x, y) == Case::Empty
}

/// The bounding box of shape `s`, with its top-left corner at `(x, y)`, lies
/// inside the grid.
pub open spec fn in_bounds(s: Seq<Seq<Case>>, x: int, y: int) -> bool {
    &&& 0 <= x
    &&& x + shape_width(s) <= GRID_WIDTH
    &&& 0 <= y
    &&& y + shape_height(s) <= GRID_HEIGHT
}

/// Cell `(i, j)` (row, column) of shape `s` placed at `(x, y)` is filled and
/// lands on a filled grid cell.
pub open spec fn conflict(g: Seq<Seq<Case>>, s: Seq<Seq<Case>>, x: int, y: int, i: int, j: int) -> bool {
    s[i][j] != Case::Empty && cell(g, x + j, y + i) != Case::Empty
}

/// Some filled cell of shape `s` placed at `(x, y)` lands on a filled grid
/// cell.
pub open spec fn overlaps(g: Seq<Seq<Case>>, s: Seq<Seq<Case>>, x: int, y: int) -> bool {
    exists|i: int, j: int|
        0 <= i < shape_height(s) && 0 <= j < shape_width(s) && #[trigger] conflict(g, s, x, y, i, j)
}

/// Shape `s` cannot stand at `(x, y)`: it leaves the grid or overlaps a locked
/// cell.
pub open spec fn collides(g: Seq<Seq<Case>>, s: Seq<Seq<Case>>, x: int, y: int) -> bool {
    !in_bounds(s, x, y) || overlaps(g, s, x, y)
}

/// A grid with every cell empty.
pub fn new_grid() -> (g: Grid)
    ensures
        rows(g) == empty_rows(GRID_HEIGHT as nat),
        is_empty_grid(rows(g)),
{
    let g: Grid = [[Case::Empty; GRID_HEIGHT]; GRID_WIDTH];
    assert forall|y: int| 0 <= y < GRID_HEIGHT implies #[trigger] rows(g)[y] =~= empty_rows(GRID_HEIGHT as nat)[y] by {
        assert forall|x: int| 0 <= x < GRID_WIDTH implies #[trigger] rows(g)[y][x] == Case::Empty by {
            assert(g@[x]@[y] == Case::Empty);
        }
    }
    assert(rows(g) =~= empty_rows(GRID_HEIGHT as nat));
    g
}

/// Tests whether `piece`, moved by `(dx, dy)`, would leave the grid or overlap
/// a locked cell.
pub fn check_collision(grid: &Grid, piece: &Piece, dx: i32, dy: i32) -> (r: bool)
    requires
        piece.wf(),
    ensures
        r == collides(rows(*grid), piece.shape(), piece.x + dx, piece.y + dy),
{
    let piece_x: i64 = piece.x as i64 + dx as i64;
    let piece_y: i64 = piece.y as i64 + dy as i64;
    let w = piece.width();
    let h = piece.height();
    if piece_y < 0 || piece_y + h as i64 > GRID_HEIGHT as i64 {
        return true;
    }
    if piece_x < 0 || piece_x + w as i64 > GRID_WIDTH as i64 {
        return true;
    }
    let ghost s = piece.shape();
    let mut i: usize = 0;
    while i < piece.cases.len()
        invariant
            s == piece.shape(),
            wf_shape(s),
            piece_x == piece.x + dx,
            piece_y == piece.y + dy,
            in_bounds(s, piece_x as int, piece_y as int),
            i <= s.len(),
            forall|a: int, b: int|
                0 <= a < i && 0 <= b < shape_width(s) ==> !#[trigger] conflict(
                    rows(*grid),
                    s,
                    piece_x as int,
                    piece_y as int,
                    a,
                    b,
                ),
        decreases s.len() - i,
    {
        let line = &piece.cases[i];
        assert(line@ == s[i as int]);
        let mut j: usize = 0;
        while j < line.len()
            invariant
                s == piece.shape(),
                wf_shape(s),
                piece_x == piece.x + dx,
                piece_y == piece.y + dy,
                in_bounds(s, piece_x as int, piece_y as int),
                i < s.len(),
                line@ == s[i as int],
                j <= line@.len(),
                forall|a: int, b: int|
                    0 <= a < i && 0 <= b < shape_width(s) ==> !#[trigger] conflict(
                        rows(*grid),
                        s,
                        piece_x as int,
                        piece_y as int,
                        a,
                        b,
                    ),
                forall|b: int|
                    0 <= b < j ==> !#[trigger] conflict(
                        rows(*grid),
                        s,
                        piece_x as int,
                        piece_y as int,
                        i as int,
                        b,
                    ),
            decreases line@.len() - j,
        {
            if line[j] != Case::Empty {
                let gx = piece_x as usize + j;
                let gy = piece_y as usize + i;
                let c = grid[gx][gy];
                assert(c == cell(rows(*grid), piece_x + j, piece_y + i));
                if c != Case::Empty {
                    assert(s[i as int].len() == s[0].len());
                    assert(conflict(rows(*grid), s, piece_x as int, piece_y as int, i as int, j as int));
                    return true;
                }
            }
            j = j + 1;
        }
        i = i + 1;
    }
    false
}

/// The cell at `(x, y)` while shape `s` is being locked at `(px, py)`: only
/// the shape's rows above `i` and, in row `i`, its columns left of `j` are
/// written so far.
spec fn locked_cell_upto(
    g: Seq<Seq<Case>>,
    s: Seq<Seq<Case>>,
    px: int,
    py: int,
    i: int,
    j: int,
    x: int,
    y: int,
) -> Case {
    let a = y - py;
    let b = x - px;
    if 0 <= a < shape_height(s) && 0 <= b < shape_width(s) && s[a][b] != Case::Empty && (a < i
        || (a == i && b < j)) {
        s[a][b]
    } else {
        cell(g, x, y)
    }
}

/// The cell at `(x, y)` after shape `s` is locked at `(px, py)`: the shape's
/// colour where the shape is filled, the grid's cell elsewhere.
pub open spec fn locked_cell(g: Seq<Seq<Case>>, s: Seq<Seq<Case>>, px: int, py: int, x: int, y: int) -> Case {
    let a = y - py;
    let b = x - px;
    if 0 <= a < shape_height(s) && 0 <= b < shape_width(s) && s[a][b] != Case::Empty {
        s[a][b]
    } else {
        cell(g, x, y)
    }
}

/// The grid after shape `s` is locked at `(px, py)`.
pub open spec fn locked(g: Seq<Seq<Case>>, s: Seq<Seq<Case>>, px: int, py: int) -> Seq<Seq<Case>> {
    Seq::new(
        GRID_HEIGHT as nat,
        |y: int| Seq::new(GRID_WIDTH as nat, |x: int| locked_cell(g, s, px, py, x, y)),
    )
}

/// Writes every filled cell of `piece` into the grid at the piece's position.
pub fn lock_piece(grid: &mut Grid, piece: &Piece)
    requires
        piece.wf(),
        in_bounds(piece.shape(), piece.x as int, piece.y as int),
    ensures
        rows(*final(grid)) == locked(rows(*old(grid)), piece.shape(), piece.x as int, piece.y as int),
{
    let ghost s = piece.shape();
    let ghost g0 = *grid;
    let px = piece.x as usize;
    let py = piece.y as usize;
    let mut i: usize = 0;
    while i < piece.cases.len()
        invariant
            s == piece.shape(),
            wf_shape(s),
            in_bounds(s, piece.x as int, piece.y as int),
            px == piece.x,
            py == piece.y,
            i <= s.len(),
            forall|x: int, y: int|
                0 <= x < GRID_WIDTH && 0 <= y < GRID_HEIGHT ==> #[trigger] at(*grid, x, y)
                    == locked_cell_upto(rows(g0), s, px as int, py as int, i as int, 0, x, y),
        decreases s.len() - i,
    {
        let line = &piece.cases[i];
        assert(line@ == s[i as int]);
        assert(s[i as int].len() == s[0].len());
        let mut j: usize = 0;
        while j < line.len()
            invariant
                s == piece.shape(),
                wf_shape(s),
                in_bounds(s, piece.x as int, piece.y as int),
                px == piece.x,
                py == piece.y,
                i < s.len(),
                line@ == s[i as int],
                line@.len() == shape_width(s),
                j <= line@.len(),
                forall|x: int, y: int|
                    0 <= x < GRID_WIDTH && 0 <= y < GRID_HEIGHT ==> #[trigger] at(*grid, x, y)
                        == locked_cell_upto(rows(g0), s, px as int, py as int, i as int, j as int, x, y),
            decreases line@.len() - j,
        {
            let c = line[j];
            if c != Case::Empty {
                let gx = px + j;
                let gy = py + i;
                let ghost before = *grid;
                let mut column = grid[gx];
                column[gy] = c;
                grid[gx] = column;
                assert forall|x: int, y: int|
                    0 <= x < GRID_WIDTH && 0 <= y < GRID_HEIGHT implies #[trigger] at(*grid, x, y)
                        == locked_cell_upto(rows(g0), s, px as int, py as int, i as int, j + 1, x, y) by {
                    if x != gx || y != gy {
                        assert(at(*grid, x, y) == at(before, x, y));
                    }
                }
            } else {
                assert forall|x: int, y: int|
                    0 <= x < GRID_WIDTH && 0 <= y < GRID_HEIGHT implies #[trigger] at(*grid, x, y)
                        == locked_cell_upto(rows(g0), s, px as int, py as int, i as int, j + 1, x, y) by {
                    assert(at(*grid, x, y) == locked_cell_upto(rows(g0), s, px as int, py as int, i as int, j as int, x, y));
                }
            }
            j = j + 1;
        }
        assert forall|x: int, y: int|
            0 <= x < GRID_WIDTH && 0 <= y < GRID_HEIGHT implies #[trigger] at(*grid, x, y)
                == locked_cell_upto(rows(g0), s, px as int, py as int, i + 1, 0, x, y) by {
            assert(at(*grid, x, y) == locked_cell_upto(rows(g0), s, px as int, py as int, i as int, j as int, x, y));
        }
        i = i + 1;
    }
    let ghost target = locked(rows(g0), s, px as int, py as int);
    assert forall|y: int| 0 <= y < GRID_HEIGHT implies #[trigger] rows(*grid)[y] =~= target[y] by {
        assert forall|x: int| 0 <= x < GRID_WIDTH implies #[trigger] rows(*grid)[y][x] == target[y][x] by {
            assert(at(*grid, x, y) == locked_cell_upto(rows(g0), s, px as int, py as int, s.len() as int, 0, x, y));
        }
    }
    assert(rows(*grid) =~= target);
}


/// Every cell of the row is filled.
pub open spec fn is_full(r: Seq<Case>) -> bool {
    forall|x: int| 0 <= x < r.len() ==> #[trigger] r[x] != Case::Empty
}

/// A row of empty cells.
pub open spec fn empty_row() -> Seq<Case> {
    Seq::new(GRID_WIDTH as nat, |x: int| Case::Empty)
}

/// `n` rows of empty cells.
pub open spec fn empty_rows(n: nat) -> Seq<Seq<Case>> {
    Seq::new(n, |i: int| empty_row())
}

/// The full rows among `rs`, in order.
pub open spec fn full_rows(rs: Seq<Seq<Case>>) -> Seq<Seq<Case>> {
    rs.filter(|r: Seq<Case>| is_full(r))
}

/// The rows of `rs` that are not full, in order.
pub open spec fn kept_rows(rs: Seq<Seq<Case>>) -> Seq<Seq<Case>> {
    rs.filter(|r: Seq<Case>| !is_full(r))
}

/// The rows after the full ones are removed: the rows that are not full keep
/// their order and sink to the bottom, and as many empty rows as were removed
/// fill the top.
pub open spec fn cleared(rs: Seq<Seq<Case>>) -> Seq<Seq<Case>> {
    empty_rows(full_rows(rs).len()) + kept_rows(rs)
}

/// Tests whether row `y` of the grid is full.
fn is_line_full(grid: &Grid, y: usize) -> (r: bool)
    requires
        y < GRID_HEIGHT,
    ensures
        r == is_full(rows(*grid)[y as int]),
{
    let mut x: usize = 0;
    while x < GRID_WIDTH
        invariant
            y < GRID_HEIGHT,
            x <= GRID_WIDTH,
            forall|a: int| 0 <= a < x ==> #[trigger] at(*grid, a, y as int) != Case::Empty,
        decreases GRID_WIDTH - x,
    {
        if grid[x][y] == Case::Empty {
            assert(rows(*grid)[y as int][x as int] == Case::Empty);
            return false;
        }
        x = x + 1;
    }
    assert(rows(*grid)[y as int] == row(*grid, y as int));
    assert forall|a: int| 0 <= a < row(*grid, y as int).len() implies #[trigger] row(*grid, y as int)[a] != Case::Empty by {
        assert(at(*grid, a, y as int) != Case::Empty);
    }
    true
}

/// Moves every row above row `y` down by one, overwriting row `y`, and
/// empties the top row.
fn shift_down_above(grid: &mut Grid, y: usize)
    requires
        y < GRID_HEIGHT,
    ensures
        rows(*final(grid)) == seq![empty_row()] + rows(*old(grid)).take(y as int) + rows(*old(grid)).skip(y + 1),
{
    let ghost g0 = *grid;
    let mut x: usize = 0;
    while x < GRID_WIDTH
        invariant
            y < GRID_HEIGHT,
            x <= GRID_WIDTH,
            forall|a: int, b: int|
                0 <= a < GRID_WIDTH && 0 <= b < GRID_HEIGHT ==> #[trigger] at(*grid, a, b) == if a
                    >= x {
                    at(g0, a, b)
                } else if b == 0 {
                    Case::Empty
                } else if b <= y {
                    at(g0, a, b - 1)
                } else {
                    at(g0, a, b)
                },
        decreases GRID_WIDTH - x,
    {
        let ghost before = *grid;
        let old_column = grid[x];
        let mut column = old_column;
        let mut j: usize = y;
        while j > 0
            invariant
                y < GRID_HEIGHT,
                j <= y,
                forall|b: int|
                    0 <= b < GRID_HEIGHT ==> #[trigger] column@[b] == if j < b <= y {
                        old_column@[b - 1]
                    } else {
                        old_column@[b]
                    },
            decreases j,
        {
            column[j] = column[j - 1];
            j = j - 1;
        }
        column[0] = Case::Empty;
        grid[x] = column;
        assert forall|a: int, b: int|
            0 <= a < GRID_WIDTH && 0 <= b < GRID_HEIGHT implies #[trigger] at(*grid, a, b) == if a
                >= x + 1 {
                at(g0, a, b)
            } else if b == 0 {
                Case::Empty
            } else if b <= y {
                at(g0, a, b - 1)
            } else {
                at(g0, a, b)
            } by {
            if a != x {
                assert(at(*grid, a, b) == at(before, a, b));
            } else {
                assert(old_column@ == before@[a]@);
                assert(at(before, a, b) == at(g0, a, b));
                if b >= 1 {
                    assert(at(before, a, b - 1) == at(g0, a, b - 1));
                }
            }
        }
        x = x + 1;
    }
    let ghost g1 = *grid;
    let ghost rhs = seq![empty_row()] + rows(g0).take(y as int) + rows(g0).skip(y + 1);
    assert forall|b: int| 0 <= b < GRID_HEIGHT implies #[trigger] rows(g1)[b] == rhs[b] by {
        if b == 0 {
            assert(rows(g1)[b] =~= empty_row());
        } else if b <= y {
            assert(rows(g1)[b] =~= rows(g0)[b - 1]);
        } else {
            assert(rows(g1)[b] =~= rows(g0)[b]);
        }
    }
    assert(rows(g1) =~= rhs);
}

/// Removes every full row, moving the rows above it down, and returns how many
/// rows were removed.
pub fn remove_complete_lines(grid: &mut Grid) -> (r: u32)
    ensures
        rows(*final(grid)) == cleared(rows(*old(grid))),
        r == full_rows(rows(*old(grid))).len(),
{
    let ghost rs0 = rows(*grid);
    let mut count: u32 = 0;
    let mut y: usize = 0;
    while y < GRID_HEIGHT
        invariant
            y <= GRID_HEIGHT,
            rs0.len() == GRID_HEIGHT,
            count == full_rows(rs0.take(y as int)).len(),
            count <= y,
            rows(*grid).take(y as int) == empty_rows(count as nat) + kept_rows(rs0.take(y as int)),
            rows(*grid).skip(y as int) == rs0.skip(y as int),
        decreases GRID_HEIGHT - y,
    {
        let ghost cur = rows(*grid);
        let ghost line = rs0[y as int];
        assert(cur[y as int] == cur.skip(y as int)[0]);
        assert(rs0.take(y + 1).drop_last() =~= rs0.take(y as int));
        assert(rs0.take(y + 1).last() == line);
        proof {
            reveal_with_fuel(Seq::filter, 1);
        }
        assert(full_rows(rs0.take(y + 1)) == if is_full(line) {
            full_rows(rs0.take(y as int)).push(line)
        } else {
            full_rows(rs0.take(y as int))
        });
        assert(kept_rows(rs0.take(y + 1)) == if is_full(line) {
            kept_rows(rs0.take(y as int))
        } else {
            kept_rows(rs0.take(y as int)).push(line)
        });
        if is_line_full(grid, y) {
            shift_down_above(grid, y);
            count = count + 1;
            let ghost nxt = rows(*grid);
            assert(nxt.take(y + 1) =~= seq![empty_row()] + cur.take(y as int));
            assert(empty_rows(count as nat) =~= seq![empty_row()] + empty_rows((count - 1) as nat));
            assert(nxt.take(y + 1) =~= empty_rows(count as nat) + kept_rows(rs0.take(y + 1)));
            assert(nxt.skip(y + 1) =~= cur.skip(y + 1));
            assert(cur.skip(y + 1) =~= rs0.skip(y + 1)) by {
                assert(cur.skip(y + 1) =~= cur.skip(y as int).skip(1));
                assert(rs0.skip(y + 1) =~= rs0.skip(y as int).skip(1));
            }
        } else {
            assert(cur.take(y + 1) =~= cur.take(y as int).push(line));
            assert(cur.take(y + 1) =~= empty_rows(count as nat) + kept_rows(rs0.take(y + 1)));
            assert(cur.skip(y + 1) =~= rs0.skip(y + 1)) by {
                assert(cur.skip(y + 1) =~= cur.skip(y as int).skip(1));
                assert(rs0.skip(y + 1) =~= rs0.skip(y as int).skip(1));
            }
        }
        y = y + 1;
    }
    assert(rows(*grid) =~= rows(*grid).take(GRID_HEIGHT as int));
    assert(rs0 =~= rs0.take(GRID_HEIGHT as int));
    count
}


/// A sequence of rows splits into its full rows and the others.
pub proof fn lemma_split_len(rs: Seq<Seq<Case>>)
    ensures
        full_rows(rs).len() + kept_rows(rs).len() == rs.len(),
    decreases rs.len(),
{
    reveal_with_fuel(Seq::filter, 1);
    if rs.len() > 0 {
        lemma_split_len(rs.drop_last());
    }
}

/// Clearing lines keeps the grid's height; it removes exactly the full rows,
/// keeps the other rows in their order at the bottom, and fills the top with
/// as many empty rows as it removed.
pub proof fn lemma_line_clear(rs: Seq<Seq<Case>>)
    ensures
        cleared(rs).len() == rs.len(),
        forall|i: int| 0 <= i < full_rows(rs).len() ==> #[trigger] cleared(rs)[i] == empty_row(),
        cleared(rs).skip(full_rows(rs).len() as int) == kept_rows(rs),
        forall|i: int| 0 <= i < full_rows(rs).len() ==> is_full(#[trigger] full_rows(rs)[i]),
        forall|i: int| 0 <= i < kept_rows(rs).len() ==> !is_full(#[trigger] kept_rows(rs)[i]),
{
    lemma_split_len(rs);
    let k = full_rows(rs).len() as int;
    assert(cleared(rs).skip(k) =~= kept_rows(rs));
    assert forall|i: int| 0 <= i < full_rows(rs).len() implies is_full(#[trigger] full_rows(rs)[i]) by {
        rs.lemma_filter_pred(|r: Seq<Case>| is_full(r), i);
    }
    assert forall|i: int| 0 <= i < kept_rows(rs).len() implies !is_full(#[trigger] kept_rows(rs)[i]) by {
        rs.lemma_filter_pred(|r: Seq<Case>| !is_full(r), i);
    }
}

} // verus!
