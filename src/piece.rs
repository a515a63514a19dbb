//! The seven piece kinds, their shape templates, their rotation offsets, and
//! the active piece with its clockwise rotation.

use vstd::prelude::*;

verus! {

/// One cell of the grid or of a piece shape: empty, or one of seven colours.
/// Each colour also names the piece kind that carries it.
#[derive(Clone, Copy, Debug, PartialEq, Eq, Structural)]
pub enum Case {
    Empty,
    Red,
    Green,
    Blue,
    Yellow,
    DarkYellow,
    Purple,
    Cyan,
}

/// A displacement in grid cells.
#[derive(Clone, Copy, Debug, PartialEq, Eq, Structural)]
pub struct Offset {
    pub x: i32,
    pub y: i32,
}

/// The shape template of each kind, as rows of cells from top to bottom.
pub open spec fn template(case: Case) -> Seq<Seq<Case>> {
    match case {
        Case::Red => seq![
            seq![Case::Red, Case::Red, Case::Empty],
            seq![Case::Empty, Case::Red, Case::Red],
        ],
        Case::Green => seq![
            seq![Case::Empty, Case::Green, Case::Green],
            seq![Case::Green, Case::Green, Case::Empty],
        ],
        Case::Blue => seq![
            seq![Case::Blue, Case::Empty, Case::Empty],
            seq![Case::Blue, Case::Blue, Case::Blue],
        ],
        Case::Yellow => seq![
            seq![Case::Empty, Case::Empty, Case::Yellow],
            seq![Case::Yellow, Case::Yellow, Case::Yellow],
        ],
        Case::DarkYellow => seq![
            seq![Case::DarkYellow, Case::DarkYellow],
            seq![Case::DarkYellow, Case::DarkYellow],
        ],
        Case::Purple => seq![
            seq![Case::Empty, Case::Purple, Case::Empty],
            seq![Case::Purple, Case::Purple, Case::Purple],
        ],
        Case::Cyan => seq![seq![Case::Cyan, Case::Cyan, Case::Cyan, Case::Cyan]],
        Case::Empty => seq![],
    }
}

/// The offset applied to a piece of the given kind when it rotates away from
/// rotation step `index`: zero for the square, a table of its own for the bar,
/// and a shared table for the other kinds.
pub open spec fn kick(case: Case, index: int) -> (int, int) {
    match case {
        Case::DarkYellow => (0, 0),
        Case::Cyan => if index == 0 {
            (2, -1)
        } else if index == 1 {
            (-2, 2)
        } else if index == 2 {
            (1, -2)
        } else {
            (-1, 1)
        },
        _ => if index == 0 {
            (1, 0)
        } else if index == 1 {
            (-1, 1)
        } else if index == 2 {
            (0, -1)
        } else {
            (0, 0)
        },
    }
}

/// Number of rows of a shape.
pub open spec fn shape_height(s: Seq<Seq<Case>>) -> int {
    s.len() as int
}

/// Number of columns of a shape, read from its first row.
pub open spec fn shape_width(s: Seq<Seq<Case>>) -> int {
    if s.len() > 0 {
        s[0].len() as int
    } else {
        0
    }
}

/// A shape is a non-empty rectangle of at most four rows and four columns.
pub open spec fn wf_shape(s: Seq<Seq<Case>>) -> bool {
    &&& 1 <= s.len() <= 4
    &&& 1 <= s[0].len() <= 4
    &&& forall|i: int| 0 <= i < s.len() ==> #[trigger] s[i].len() == s[0].len()
}

/// The shape turned a quarter turn clockwise: column `i` of `s`, read from the
/// bottom row up, becomes row `i` of the result.
pub open spec fn rotate_cw(s: Seq<Seq<Case>>) -> Seq<Seq<Case>> {
    Seq::new(
        shape_width(s) as nat,
        |i: int| Seq::new(s.len(), |j: int| s[s.len() - 1 - j][i]),
    )
}

/// Returns the shape template of a piece kind.
pub fn piece_cases(case: Case) -> (r: Vec<Vec<Case>>)
    requires
        case != Case::Empty,
    ensures
        rows_view(r@) == template(case),
{
    let r = match case {
        Case::Red => vec![
            vec![Case::Red, Case::Red, Case::Empty],
            vec![Case::Empty, Case::Red, Case::Red],
        ],
        Case::Green => vec![
            vec![Case::Empty, Case::Green, Case::Green],
            vec![Case::Green, Case::Green, Case::Empty],
        ],
        Case::Blue => vec![
            vec![Case::Blue, Case::Empty, Case::Empty],
            vec![Case::Blue, Case::Blue, Case::Blue],
        ],
        Case::Yellow => vec![
            vec![Case::Empty, Case::Empty, Case::Yellow],
            vec![Case::Yellow, Case::Yellow, Case::Yellow],
        ],
        Case::DarkYellow => vec![
            vec![Case::DarkYellow, Case::DarkYellow],
            vec![Case::DarkYellow, Case::DarkYellow],
        ],
        Case::Purple => vec![
            vec![Case::Empty, Case::Purple, Case::Empty],
            vec![Case::Purple, Case::Purple, Case::Purple],
        ],
        _ => vec![vec![Case::Cyan, Case::Cyan, Case::Cyan, Case::Cyan]],
    };
    assert(rows_view(r@) =~= template(case));
    r
}

/// The rows of a shape held in vectors, as a sequence of sequences.
pub open spec fn rows_view(rows: Seq<Vec<Case>>) -> Seq<Seq<Case>> {
    Seq::new(rows.len(), |i: int| rows[i]@)
}


/// Returns the offset applied when a piece of kind `case` rotates away from
/// rotation step `index`.
pub fn cases_rotation_offset(case: Case, index: usize) -> (r: Offset)
    requires
        index < 4,
    ensures
        (r.x as int, r.y as int) == kick(case, index as int),
{
    match case {
        Case::DarkYellow => Offset { x: 0, y: 0 },
        Case::Cyan => if index == 0 {
            Offset { x: 2, y: -1 }
        } else if index == 1 {
            Offset { x: -2, y: 2 }
        } else if index == 2 {
            Offset { x: 1, y: -2 }
        } else {
            Offset { x: -1, y: 1 }
        },
        _ => if index == 0 {
            Offset { x: 1, y: 0 }
        } else if index == 1 {
            Offset { x: -1, y: 1 }
        } else if index == 2 {
            Offset { x: 0, y: -1 }
        } else {
            Offset { x: 0, y: 0 }
        },
    }
}

/// Maps a draw from `1..=7` to a colour, in catalogue order; any other value
/// gives `Empty`.
pub fn sample_case(n: u8) -> (r: Case)
    ensures
        r == case_of_draw(n as int),
{
    match n {
        1 => Case::Red,
        2 => Case::Green,
        3 => Case::Blue,
        4 => Case::Yellow,
        5 => Case::DarkYellow,
        6 => Case::Purple,
        7 => Case::Cyan,
        _ => Case::Empty,
    }
}

/// The colour that a draw from `1..=7` stands for.
pub open spec fn case_of_draw(n: int) -> Case {
    if n == 1 {
        Case::Red
    } else if n == 2 {
        Case::Green
    } else if n == 3 {
        Case::Blue
    } else if n == 4 {
        Case::Yellow
    } else if n == 5 {
        Case::DarkYellow
    } else if n == 6 {
        Case::Purple
    } else if n == 7 {
        Case::Cyan
    } else {
        Case::Empty
    }
}

/// Width of the grid, in cells.
pub const GRID_WIDTH: usize = 10;

/// Height of the grid, in cells.
pub const GRID_HEIGHT: usize = 20;

/// A piece: its kind, the grid position of the top-left corner of its bounding
/// box, the time since it last moved down (in nanoseconds), its current shape
/// and its rotation step.
pub struct Piece {
    pub case: Case,
    pub x: i32,
    pub y: i32,
    pub last_move: u64,
    pub cases: Vec<Vec<Case>>,
    pub index_rotation: usize,
}

/// The mathematical value of a piece: its kind, position, fall timer (in
/// nanoseconds), shape and rotation step.
pub struct PieceModel {
    pub case: Case,
    pub x: int,
    pub y: int,
    pub last_move: int,
    pub shape: Seq<Seq<Case>>,
    pub index: int,
}

impl PieceModel {
    /// A rectangular shape of at most four by four cells, and a rotation step
    /// below four.
    pub open spec fn wf(self) -> bool {
        &&& wf_shape(self.shape)
        &&& 0 <= self.index < 4
    }
}

impl View for Piece {
    type V = PieceModel;

    open spec fn view(&self) -> PieceModel {
        PieceModel {
            case: self.case,
            x: self.x as int,
            y: self.y as int,
            last_move: self.last_move as int,
            shape: self.shape(),
            index: self.index_rotation as int,
        }
    }
}

/// A piece of kind `case` as it enters play: its template shape, centred in
/// the top row, at rotation step zero, with its fall timer at zero.
pub open spec fn fresh(case: Case) -> PieceModel {
    PieceModel {
        case: case,
        x: spawn_x(template(case)),
        y: 0,
        last_move: 0,
        shape: template(case),
        index: 0,
    }
}

impl Piece {
    /// The current shape as rows of cells.
    pub open spec fn shape(&self) -> Seq<Seq<Case>> {
        rows_view(self.cases@)
    }

    /// A well-formed piece has a rectangular shape of at most four by four
    /// cells and a rotation step below four.
    pub open spec fn wf(&self) -> bool {
        &&& wf_shape(self.shape())
        &&& self.index_rotation < 4
    }

    /// Number of columns of the piece's shape.
    pub fn width(&self) -> (r: i32)
        requires
            self.wf(),
        ensures
            r == shape_width(self.shape()),
    {
        self.cases[0].len() as i32
    }

    /// Number of rows of the piece's shape.
    pub fn height(&self) -> (r: i32)
        requires
            self.wf(),
        ensures
            r == shape_height(self.shape()),
    {
        self.cases.len() as i32
    }
}

/// The column at which a piece of the given shape appears: its bounding box
/// centred on the grid, rounded to the left.
pub open spec fn spawn_x(s: Seq<Seq<Case>>) -> int {
    (GRID_WIDTH - shape_width(s)) / 2
}

/// Every template is a well-formed shape.
pub proof fn lemma_template_wf(case: Case)
    requires
        case != Case::Empty,
    ensures
        wf_shape(template(case)),
        shape_height(template(case)) <= 2,
{
}

/// Creates a piece of kind `case` at its spawn position.
pub fn create_piece(case: Case) -> (r: Piece)
    requires
        case != Case::Empty,
    ensures
        r@ == fresh(case),
        r.wf(),
{
    let cases = piece_cases(case);
    proof {
        lemma_template_wf(case);
        assert(cases@[0]@ == rows_view(cases@)[0]);
    }
    let w = cases[0].len();
    Piece { case: case, x: ((GRID_WIDTH - w) / 2) as i32, y: 0, last_move: 0, cases: cases, index_rotation: 0 }
}

/// Turns a shape a quarter turn clockwise.
pub fn rotated_cases(cases: &Vec<Vec<Case>>) -> (r: Vec<Vec<Case>>)
    requires
        wf_shape(rows_view(cases@)),
    ensures
        rows_view(r@) == rotate_cw(rows_view(cases@)),
        wf_shape(rows_view(r@)),
{
    let ghost s = rows_view(cases@);
    let height = cases.len();
    let width = cases[0].len();
    let mut out: Vec<Vec<Case>> = Vec::new();
    let mut x: usize = 0;
    while x < width
        invariant
            s == rows_view(cases@),
            wf_shape(s),
            height == s.len(),
            width == s[0].len(),
            x <= width,
            out@.len() == x,
            forall|i: int| 0 <= i < x ==> #[trigger] out@[i]@ == rotate_cw(s)[i],
        decreases width - x,
    {
        let mut row: Vec<Case> = Vec::new();
        let mut j: usize = 0;
        while j < height
            invariant
                s == rows_view(cases@),
                wf_shape(s),
                height == s.len(),
                width == s[0].len(),
                x < width,
                j <= height,
                row@.len() == j,
                forall|k: int| 0 <= k < j ==> #[trigger] row@[k] == s[height - 1 - k][x as int],
            decreases height - j,
        {
            assert(cases@[height - 1 - j]@ == s[height - 1 - j]);
            row.push(cases[height - 1 - j][x]);
            j = j + 1;
        }
        assert(row@ =~= rotate_cw(s)[x as int]);
        out.push(row);
        x = x + 1;
    }
    assert(rows_view(out@) =~= rotate_cw(s));
    out
}


/// A quarter turn of a well-formed shape is well-formed, with rows and columns
/// exchanged.
pub proof fn lemma_rotate_wf(s: Seq<Seq<Case>>)
    requires
        wf_shape(s),
    ensures
        wf_shape(rotate_cw(s)),
        shape_height(rotate_cw(s)) == shape_width(s),
        shape_width(rotate_cw(s)) == shape_height(s),
{
}

/// Two quarter turns make a half turn: the shape read backwards in both
/// directions.
pub proof fn lemma_rotate_twice(s: Seq<Seq<Case>>)
    requires
        wf_shape(s),
    ensures
        rotate_cw(rotate_cw(s)) == Seq::new(
            s.len(),
            |i: int| Seq::new(s[0].len(), |j: int| s[s.len() - 1 - i][s[0].len() - 1 - j]),
        ),
{
    lemma_rotate_wf(s);
    let r1 = rotate_cw(s);
    let r2 = rotate_cw(r1);
    let h = s.len() as int;
    let w = s[0].len() as int;
    let expect = Seq::new(
        s.len(),
        |i: int| Seq::new(s[0].len(), |j: int| s[s.len() - 1 - i][s[0].len() - 1 - j]),
    );
    assert forall|i: int| 0 <= i < h implies #[trigger] r2[i] =~= expect[i] by {
        assert forall|j: int| 0 <= j < w implies #[trigger] r2[i][j] == expect[i][j] by {
            assert(r2[i][j] == r1[w - 1 - j][i]);
            assert(r1[w - 1 - j][i] == s[h - 1 - i][w - 1 - j]);
        }
    }
    assert(r2 =~= expect);
}

/// Four quarter turns give back the shape one started from.
pub proof fn lemma_rotate_four_times(s: Seq<Seq<Case>>)
    requires
        wf_shape(s),
    ensures
        rotate_cw(rotate_cw(rotate_cw(rotate_cw(s)))) == s,
{
    lemma_rotate_wf(s);
    lemma_rotate_wf(rotate_cw(s));
    lemma_rotate_twice(s);
    let half = rotate_cw(rotate_cw(s));
    assert(wf_shape(half));
    lemma_rotate_twice(half);
    let h = s.len() as int;
    let w = s[0].len() as int;
    let full = rotate_cw(rotate_cw(half));
    assert forall|i: int| 0 <= i < h implies #[trigger] full[i] =~= s[i] by {
        assert forall|j: int| 0 <= j < w implies #[trigger] full[i][j] == s[i][j] by {
            assert(full[i][j] == half[h - 1 - i][w - 1 - j]);
        }
    }
    assert(full =~= s);
}

/// A quarter turn leaves the square's template as it is, at every step.
pub proof fn lemma_square_rotation_fixed()
    ensures
        rotate_cw(template(Case::DarkYellow)) == template(Case::DarkYellow),
{
    let t = template(Case::DarkYellow);
    assert forall|i: int| 0 <= i < 2 implies #[trigger] rotate_cw(t)[i] =~= t[i] by {}
    assert(rotate_cw(t) =~= t);
}

/// The T piece and the two L-shaped pieces come back to their template after
/// four quarter turns and not before.
pub proof fn lemma_rotation_cycle_four(case: Case)
    requires
        case == Case::Blue || case == Case::Yellow || case == Case::Purple,
    ensures
        rotate_cw(template(case)) != template(case),
        rotate_cw(rotate_cw(template(case))) != template(case),
        rotate_cw(rotate_cw(rotate_cw(template(case)))) != template(case),
        rotate_cw(rotate_cw(rotate_cw(rotate_cw(template(case))))) == template(case),
{
    let t = template(case);
    lemma_template_wf(case);
    lemma_rotate_wf(t);
    lemma_rotate_wf(rotate_cw(t));
    lemma_rotate_wf(rotate_cw(rotate_cw(t)));
    lemma_rotate_twice(t);
    if case == Case::Blue {
        assert(rotate_cw(rotate_cw(t))[0][1] != t[0][1]);
    } else {
        assert(rotate_cw(rotate_cw(t))[0][0] != t[0][0]);
    }
    lemma_rotate_four_times(t);
}

/// Over the four rotation steps the offsets of every kind add up to nothing,
/// so a piece turned four times without hitting anything is back where it
/// started.
pub proof fn lemma_kicks_cancel(case: Case)
    ensures
        kick(case, 0).0 + kick(case, 1).0 + kick(case, 2).0 + kick(case, 3).0 == 0,
        kick(case, 0).1 + kick(case, 1).1 + kick(case, 2).1 + kick(case, 3).1 == 0,
{
}

} // verus!
