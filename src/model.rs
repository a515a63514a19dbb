//! The mathematical model of a game session and its transitions: what a tick,
//! a player command and a restart do to it.

use vstd::prelude::*;

use crate::grid::{
    cleared, collides, empty_row, empty_rows, full_rows, in_bounds, is_empty_grid, is_full,
    kept_rows, lemma_line_clear, lemma_split_len, locked, locked_cell,
};
use crate::piece::{
    fresh, kick, lemma_rotate_wf, lemma_template_wf, rotate_cw, shape_height, wf_shape, Case,
    PieceModel, GRID_HEIGHT, GRID_WIDTH,
};
use crate::speed::fall_interval;

verus! {

/// Number of upcoming pieces shown and kept in the queue.
pub const NEXT_PIECES_COUNT: usize = 3;

/// The mathematical value of a session. Times are in nanoseconds.
pub struct GameModel {
    /// The locked cells, as rows from top to bottom.
    pub grid: Seq<Seq<Case>>,
    /// The piece in play, if any.
    pub current: Option<PieceModel>,
    /// The row at which the piece in play would come to rest.
    pub ghost_y: int,
    /// The upcoming pieces, the next one first.
    pub queue: Seq<PieceModel>,
    /// The gravity interval of the current level.
    pub move_speed: int,
    /// Time spent without a piece in play, towards the next spawn.
    pub generation_timer: int,
    pub score: int,
    pub level: int,
    /// Lines removed since the last restart.
    pub lines: int,
    /// A spawned piece found its cells taken; nothing happens until a restart.
    pub lost: bool,
}

/// What a tick reports to the sound and display layers.
#[derive(Clone, Copy, Debug, PartialEq, Eq, Structural)]
pub struct TickEvents {
    /// Number of lines removed by this tick.
    pub lines_cleared: u32,
    /// The new level, when this tick raised it.
    pub level_up: Option<u32>,
    /// A spawned piece found its cells taken.
    pub game_over: bool,
}

/// A tick that reports nothing.
pub open spec fn no_events() -> TickEvents {
    TickEvents { lines_cleared: 0, level_up: None, game_over: false }
}

impl GameModel {
    /// The invariant of a session.
    pub open spec fn wf(self) -> bool {
        &&& self.grid.len() == GRID_HEIGHT
        &&& forall|y: int| 0 <= y < GRID_HEIGHT ==> #[trigger] self.grid[y].len() == GRID_WIDTH
        &&& self.queue.len() == NEXT_PIECES_COUNT
        &&& forall|i: int|
            0 <= i < NEXT_PIECES_COUNT ==> #[trigger] self.queue[i] == fresh(self.queue[i].case)
                && self.queue[i].case != Case::Empty
        &&& self.current matches Some(p) ==> p.wf() && in_bounds(p.shape, p.x, p.y)
        &&& 1 <= self.level <= u32::MAX
        &&& self.move_speed == fall_interval(self.level)
        &&& 0 <= self.generation_timer <= u64::MAX
        &&& 0 <= self.score <= i64::MAX
        &&& 0 <= self.lines <= u32::MAX
    }
}

/// `v` capped at the largest `u64`.
pub open spec fn sat_u64(v: int) -> int {
    if v > u64::MAX {
        u64::MAX as int
    } else {
        v
    }
}

/// `v` capped at the largest `u32`.
pub open spec fn sat_u32(v: int) -> int {
    if v > u32::MAX {
        u32::MAX as int
    } else {
        v
    }
}

/// `v` capped at the largest `i64`.
pub open spec fn sat_i64(v: int) -> int {
    if v > i64::MAX {
        i64::MAX as int
    } else {
        v
    }
}

/// Points for clearing `n` lines at once, before the level factor.
pub open spec fn points(n: int) -> int {
    if n == 1 {
        40
    } else if n == 2 {
        100
    } else if n == 3 {
        300
    } else if n == 4 {
        1200
    } else {
        0
    }
}

/// The least offset `e >= d` (at most the grid height) at which shape `s`,
/// moved down from `(x, y)` by `e` rows, collides.
pub open spec fn first_block(g: Seq<Seq<Case>>, s: Seq<Seq<Case>>, x: int, y: int, d: int) -> int
    decreases GRID_HEIGHT - d,
{
    if d >= GRID_HEIGHT || collides(g, s, x, y + d) {
        d
    } else {
        first_block(g, s, x, y, d + 1)
    }
}

/// The row of the ghost of piece `p`: one above the first offset at which it
/// collides.
pub open spec fn ghost_of(g: Seq<Seq<Case>>, p: PieceModel) -> int {
    p.y + first_block(g, p.shape, p.x, p.y, 0) - 1
}

/// The row at which shape `s`, falling from row `y`, comes to rest.
pub open spec fn landing(g: Seq<Seq<Case>>, s: Seq<Seq<Case>>, x: int, y: int) -> int
    decreases GRID_HEIGHT - y,
{
    if y >= GRID_HEIGHT || collides(g, s, x, y + 1) {
        y
    } else {
        landing(g, s, x, y + 1)
    }
}

/// The session with the ghost row recomputed for the piece in play.
pub open spec fn with_ghost(m: GameModel) -> GameModel {
    match m.current {
        None => m,
        Some(p) => GameModel { ghost_y: ghost_of(m.grid, p), ..m },
    }
}

/// A new session: empty grid, no piece in play, level one, no score, no
/// lines, and the queue made of fresh pieces of the given kinds.
pub open spec fn restarted(kinds: Seq<Case>) -> GameModel {
    GameModel {
        grid: empty_rows(GRID_HEIGHT as nat),
        current: None,
        ghost_y: 0,
        queue: Seq::new(kinds.len(), |i: int| fresh(kinds[i])),
        move_speed: fall_interval(1),
        generation_timer: 0,
        score: 0,
        level: 1,
        lines: 0,
        lost: false,
    }
}

/// The piece in play moved sideways by `dx`, if it fits there.
pub open spec fn moved_horizontally(m: GameModel, dx: int) -> GameModel {
    match m.current {
        None => m,
        Some(p) => if collides(m.grid, p.shape, p.x + dx, p.y) {
            m
        } else {
            GameModel { current: Some(PieceModel { x: p.x + dx, ..p }), ..m }
        },
    }
}

/// The piece in play moved down by `dy`, if it fits there; its fall timer
/// then restarts.
pub open spec fn moved_vertically(m: GameModel, dy: int) -> GameModel {
    match m.current {
        None => m,
        Some(p) => if collides(m.grid, p.shape, p.x, p.y + dy) {
            m
        } else {
            GameModel { current: Some(PieceModel { y: p.y + dy, last_move: 0, ..p }), ..m }
        },
    }
}

/// The piece in play moved straight down as far as it fits. It is not locked:
/// that waits for the next gravity step.
pub open spec fn dropped(m: GameModel) -> GameModel {
    match m.current {
        None => m,
        Some(p) => GameModel {
            current: Some(PieceModel { y: landing(m.grid, p.shape, p.x, p.y), ..p }),
            ..m
        },
    }
}

/// Where piece `p`, turned and offset, first fits: its own spot, then one
/// column left, then one column right, then one row up. `None` when none of
/// them fits.
pub open spec fn rotation_spot(g: Seq<Seq<Case>>, p: PieceModel) -> Option<(int, int)> {
    let s = rotate_cw(p.shape);
    let x = p.x + kick(p.case, p.index).0;
    let y0 = p.y + kick(p.case, p.index).1;
    let y = if y0 < 0 {
        0
    } else {
        y0
    };
    if !collides(g, s, x, y) {
        Some((x, y))
    } else if !collides(g, s, x - 1, y) {
        Some((x - 1, y))
    } else if !collides(g, s, x + 1, y) {
        Some((x + 1, y))
    } else if !collides(g, s, x, y - 1) {
        Some((x, y - 1))
    } else {
        None
    }
}

/// The piece in play turned a quarter turn clockwise and placed at its
/// rotation spot; unchanged when there is none.
pub open spec fn rotated(m: GameModel) -> GameModel {
    match m.current {
        None => m,
        Some(p) => match rotation_spot(m.grid, p) {
            None => m,
            Some(spot) => GameModel {
                current: Some(
                    PieceModel {
                        x: spot.0,
                        y: spot.1,
                        shape: rotate_cw(p.shape),
                        index: (p.index + 1) % 4,
                        ..p
                    },
                ),
                ..m
            },
        },
    }
}

/// A player command. Muting is the sound layer's business and leaves the
/// session as it is.
#[derive(Clone, Copy, Debug, PartialEq, Eq, Structural)]
pub enum Command {
    MoveLeft,
    MoveRight,
    SoftDrop,
    HardDrop,
    Rotate,
    Restart,
    ToggleMute,
}

/// What a command other than a restart does: it moves or turns the piece in
/// play, then the ghost row is recomputed. A lost session ignores it.
pub open spec fn command(m: GameModel, cmd: Command) -> GameModel {
    if m.lost {
        m
    } else {
        with_ghost(
            match cmd {
                Command::MoveLeft => moved_horizontally(m, -1),
                Command::MoveRight => moved_horizontally(m, 1),
                Command::SoftDrop => moved_vertically(m, 1),
                Command::HardDrop => dropped(m),
                Command::Rotate => rotated(m),
                _ => m,
            },
        )
    }
}

/// The spawn part of a tick. With no piece in play the spawn timer advances;
/// once it exceeds the gravity interval the head of the queue enters play,
/// a fresh piece of kind `drawn` joins the tail, and the timer restarts. The
/// flag tells whether the piece in play fits where it stands.
pub open spec fn spawn_step(m: GameModel, delta: int, drawn: Case) -> (GameModel, bool) {
    if m.current is Some {
        (m, true)
    } else {
        let t = sat_u64(m.generation_timer + delta);
        if t > m.move_speed {
            let p = m.queue[0];
            (
                GameModel {
                    current: Some(p),
                    generation_timer: 0,
                    queue: m.queue.drop_first().push(fresh(drawn)),
                    ghost_y: ghost_of(m.grid, p),
                    ..m
                },
                !collides(m.grid, p.shape, p.x, p.y),
            )
        } else {
            (GameModel { generation_timer: t, ..m }, true)
        }
    }
}

/// The gravity part of a tick. Once the piece's fall timer exceeds the
/// gravity interval it moves down a row, or, where it cannot, locks into the
/// grid and leaves play. The flag tells whether it locked.
pub open spec fn gravity_step(m: GameModel, delta: int) -> (GameModel, bool) {
    match m.current {
        None => (m, false),
        Some(p) => {
            let t = sat_u64(p.last_move + delta);
            if t > m.move_speed {
                if collides(m.grid, p.shape, p.x, p.y + 1) {
                    (GameModel { grid: locked(m.grid, p.shape, p.x, p.y), current: None, ..m }, true)
                } else {
                    (GameModel { current: Some(PieceModel { y: p.y + 1, last_move: 0, ..p }), ..m }, false)
                }
            } else {
                (GameModel { current: Some(PieceModel { last_move: t, ..p }), ..m }, false)
            }
        },
    }
}

/// The score after clearing `n` lines at the current level.
pub open spec fn scored(m: GameModel, n: int) -> GameModel {
    GameModel { score: sat_i64(m.score + points(n) * m.level), ..m }
}

/// The level goes up by one once the lines removed exceed five times the
/// level, and the gravity interval follows it.
pub open spec fn leveled(m: GameModel) -> GameModel {
    if m.lines > 5 * m.level {
        GameModel { level: m.level + 1, move_speed: fall_interval(m.level + 1), ..m }
    } else {
        m
    }
}

/// The line-clear part of a tick, after a lock: full rows leave the grid and,
/// where there were any, the score, the line count and the level follow. Also
/// gives the number of rows removed.
pub open spec fn clear_step(m: GameModel) -> (GameModel, int) {
    let n = full_rows(m.grid).len() as int;
    let m1 = GameModel { grid: cleared(m.grid), ..m };
    if n > 0 {
        let m2 = scored(m1, n);
        (leveled(GameModel { lines: sat_u32(m2.lines + n), ..m2 }), n)
    } else {
        (m1, 0)
    }
}

/// One tick of `delta` nanoseconds, with `drawn` the kind that joins the
/// queue if a piece spawns: spawn, then gravity, then line clearing. A lost
/// session does not change.
pub open spec fn tick(m: GameModel, delta: int, drawn: Case) -> (GameModel, TickEvents) {
    if m.lost {
        (m, no_events())
    } else {
        let (m1, fits) = spawn_step(m, delta, drawn);
        if !fits {
            (GameModel { lost: true, ..m1 }, TickEvents { game_over: true, ..no_events() })
        } else {
            let (m2, done) = gravity_step(m1, delta);
            if !done {
                (m2, no_events())
            } else {
                let (m3, n) = clear_step(m2);
                (
                    m3,
                    TickEvents {
                        lines_cleared: n as u32,
                        level_up: if m3.level != m2.level {
                            Some(m3.level as u32)
                        } else {
                            None
                        },
                        game_over: false,
                    },
                )
            }
        }
    }
}


/// Rows of the grid's width stay of that width when the full ones are taken
/// out.
proof fn lemma_kept_width(rs: Seq<Seq<Case>>)
    requires
        forall|i: int| 0 <= i < rs.len() ==> #[trigger] rs[i].len() == GRID_WIDTH,
    ensures
        forall|i: int| 0 <= i < kept_rows(rs).len() ==> #[trigger] kept_rows(rs)[i].len() == GRID_WIDTH,
    decreases rs.len(),
{
    reveal_with_fuel(Seq::filter, 1);
    if rs.len() > 0 {
        lemma_kept_width(rs.drop_last());
        assert(kept_rows(rs) == if is_full(rs.last()) {
            kept_rows(rs.drop_last())
        } else {
            kept_rows(rs.drop_last()).push(rs.last())
        });
    }
}

/// A fresh piece of any kind is well-formed and lies inside the grid.
proof fn lemma_fresh_in_bounds(case: Case)
    requires
        case != Case::Empty,
    ensures
        fresh(case).wf(),
        in_bounds(fresh(case).shape, fresh(case).x, fresh(case).y),
{
    lemma_template_wf(case);
}

/// A session stays well-formed through a tick; in particular the queue of
/// upcoming pieces still holds exactly three, whether or not a piece spawned.
pub proof fn lemma_tick_keeps_invariant(m: GameModel, delta: int, drawn: Case)
    requires
        m.wf(),
        delta >= 0,
        drawn != Case::Empty,
    ensures
        tick(m, delta, drawn).0.wf(),
        tick(m, delta, drawn).0.queue.len() == NEXT_PIECES_COUNT,
{
    let (m1, fits) = spawn_step(m, delta, drawn);
    if m.current is None {
        lemma_fresh_in_bounds(m.queue[0].case);
        assert(m.queue[0] == fresh(m.queue[0].case));
        if sat_u64(m.generation_timer + delta) > m.move_speed {
            assert forall|i: int| 0 <= i < NEXT_PIECES_COUNT implies #[trigger] m1.queue[i] == fresh(
                m1.queue[i].case,
            ) && m1.queue[i].case != Case::Empty by {
                if i < 2 {
                    assert(m1.queue[i] == m.queue[i + 1]);
                }
            }
        }
    }
    assert(m1.wf());
    if !m.lost && fits {
        let (m2, done) = gravity_step(m1, delta);
        assert(m2.wf());
        if done {
            lemma_line_clear(m2.grid);
            lemma_kept_width(m2.grid);
            let g = cleared(m2.grid);
            let k = full_rows(m2.grid).len() as int;
            assert forall|y: int| 0 <= y < GRID_HEIGHT implies #[trigger] g[y].len() == GRID_WIDTH by {
                if y >= k {
                    assert(g[y] == g.skip(k)[y - k]);
                }
            }
            let (m3, n) = clear_step(m2);
            assert(m3.wf());
        }
    }
}

/// A tick leaves the score as it was unless it clears lines; clearing one,
/// two, three or four lines at level `L` adds `40 L`, `100 L`, `300 L` or
/// `1200 L`, capped at the largest score.
pub proof fn lemma_tick_score(m: GameModel, delta: int, drawn: Case)
    requires
        m.wf(),
        delta >= 0,
        drawn != Case::Empty,
    ensures
        tick(m, delta, drawn).1.lines_cleared == 0 ==> tick(m, delta, drawn).0.score == m.score,
        tick(m, delta, drawn).1.lines_cleared == 1 ==> tick(m, delta, drawn).0.score == sat_i64(
            m.score + 40 * m.level,
        ),
        tick(m, delta, drawn).1.lines_cleared == 2 ==> tick(m, delta, drawn).0.score == sat_i64(
            m.score + 100 * m.level,
        ),
        tick(m, delta, drawn).1.lines_cleared == 3 ==> tick(m, delta, drawn).0.score == sat_i64(
            m.score + 300 * m.level,
        ),
        tick(m, delta, drawn).1.lines_cleared == 4 ==> tick(m, delta, drawn).0.score == sat_i64(
            m.score + 1200 * m.level,
        ),
{
    let (m1, fits) = spawn_step(m, delta, drawn);
    if !m.lost && fits {
        let (m2, done) = gravity_step(m1, delta);
        if done {
            assert(m2.grid.len() == GRID_HEIGHT) by {
                lemma_tick_keeps_invariant(m, delta, drawn);
                match m1.current {
                    Some(p) => assert(m2.grid == locked(m1.grid, p.shape, p.x, p.y)),
                    None => {},
                }
            }
            lemma_line_clear(m2.grid);
            lemma_split_len(m2.grid);
        }
    }
}

/// A tick raises the level by exactly one when it clears lines and the lines
/// removed then exceed five times the level it started at, and leaves it as it
/// was otherwise. The gravity interval always matches the level, and the
/// tick reports the new level exactly when it changed.
pub proof fn lemma_tick_level(m: GameModel, delta: int, drawn: Case)
    requires
        m.wf(),
        delta >= 0,
        drawn != Case::Empty,
    ensures
        tick(m, delta, drawn).0.level == if tick(m, delta, drawn).1.lines_cleared > 0 && tick(
            m,
            delta,
            drawn,
        ).0.lines > 5 * m.level {
            m.level + 1
        } else {
            m.level
        },
        tick(m, delta, drawn).0.move_speed == fall_interval(tick(m, delta, drawn).0.level),
        tick(m, delta, drawn).1.level_up == if tick(m, delta, drawn).0.level != m.level {
            Some(tick(m, delta, drawn).0.level as u32)
        } else {
            None
        },
{
    lemma_tick_keeps_invariant(m, delta, drawn);
    let (m1, fits) = spawn_step(m, delta, drawn);
    if !m.lost && fits {
        let (m2, done) = gravity_step(m1, delta);
        if done {
            assert(m2.grid.len() == GRID_HEIGHT) by {
                match m1.current {
                    Some(p) => assert(m2.grid == locked(m1.grid, p.shape, p.x, p.y)),
                    None => {},
                }
            }
            lemma_line_clear(m2.grid);
            lemma_split_len(m2.grid);
        }
    }
}

/// When the piece that spawns finds its cells taken, the tick reports the
/// game as over and the session is lost.
pub proof fn lemma_game_over(m: GameModel, delta: int, drawn: Case)
    requires
        m.wf(),
        !m.lost,
        m.current is None,
        sat_u64(m.generation_timer + delta) > m.move_speed,
        collides(m.grid, m.queue[0].shape, m.queue[0].x, m.queue[0].y),
    ensures
        tick(m, delta, drawn).1.game_over,
        tick(m, delta, drawn).0.lost,
{
}

/// A lost session no longer changes: ticks neither move nor lock anything and
/// report nothing, and commands other than a restart are ignored.
pub proof fn lemma_lost_is_frozen(m: GameModel, delta: int, drawn: Case, cmd: Command)
    requires
        m.lost,
    ensures
        tick(m, delta, drawn) == (m, no_events()),
        command(m, cmd) == m,
{
}

/// A restart gives an empty grid, no piece in play, level one, no score, no
/// lines, and a queue of three fresh pieces, whatever came before.
pub proof fn lemma_restart(kinds: Seq<Case>)
    requires
        kinds.len() == NEXT_PIECES_COUNT,
        forall|i: int| 0 <= i < kinds.len() ==> #[trigger] kinds[i] != Case::Empty,
    ensures
        restarted(kinds).wf(),
        settled(restarted(kinds)),
        is_empty_grid(restarted(kinds).grid),
        restarted(kinds).current is None,
        restarted(kinds).level == 1,
        restarted(kinds).score == 0,
        restarted(kinds).lines == 0,
        !restarted(kinds).lost,
        restarted(kinds).queue.len() == NEXT_PIECES_COUNT,
        forall|i: int|
            0 <= i < NEXT_PIECES_COUNT ==> #[trigger] restarted(kinds).queue[i] == fresh(kinds[i]),
{
    let m = restarted(kinds);
    assert forall|i: int| 0 <= i < NEXT_PIECES_COUNT implies #[trigger] m.queue[i] == fresh(
        m.queue[i].case,
    ) && m.queue[i].case != Case::Empty by {
        assert(m.queue[i] == fresh(kinds[i]));
    }
    assert forall|y: int| 0 <= y < GRID_HEIGHT implies !is_full(#[trigger] m.grid[y]) by {
        assert(m.grid[y][0] == Case::Empty);
    }
}


/// A session between ticks: well-formed, with no full row left in the grid,
/// and no more than five lines per level removed.
pub open spec fn settled(m: GameModel) -> bool {
    &&& m.wf()
    &&& forall|y: int| 0 <= y < GRID_HEIGHT ==> !is_full(#[trigger] m.grid[y])
    &&& m.lines <= 5 * m.level
}

/// Among the first `n` rows, full rows can only be those in the window
/// `[a, a + h)` when no row outside it is full; so there are at most as many
/// as the window holds.
proof fn lemma_full_rows_in_window(rs: Seq<Seq<Case>>, a: int, h: int, n: int)
    requires
        0 <= n <= rs.len(),
        0 <= h,
        forall|y: int| 0 <= y < rs.len() && !(a <= y < a + h) ==> !is_full(#[trigger] rs[y]),
    ensures
        full_rows(rs.take(n)).len() <= if n <= a {
            0
        } else if n >= a + h {
            h
        } else {
            n - a
        },
    decreases n,
{
    if n > 0 {
        lemma_full_rows_in_window(rs, a, h, n - 1);
        reveal_with_fuel(Seq::filter, 1);
        assert(rs.take(n).drop_last() =~= rs.take(n - 1));
        assert(rs.take(n).last() == rs[n - 1]);
        assert(full_rows(rs.take(n)) == if is_full(rs[n - 1]) {
            full_rows(rs.take(n - 1)).push(rs[n - 1])
        } else {
            full_rows(rs.take(n - 1))
        });
    }
}

/// A piece locked into a grid with no full row fills at most as many rows as
/// it is tall.
proof fn lemma_lock_fills_few_rows(g: Seq<Seq<Case>>, p: PieceModel)
    requires
        g.len() == GRID_HEIGHT,
        forall|y: int| 0 <= y < GRID_HEIGHT ==> #[trigger] g[y].len() == GRID_WIDTH,
        forall|y: int| 0 <= y < GRID_HEIGHT ==> !is_full(#[trigger] g[y]),
        p.wf(),
        in_bounds(p.shape, p.x, p.y),
    ensures
        full_rows(locked(g, p.shape, p.x, p.y)).len() <= shape_height(p.shape),
{
    let l = locked(g, p.shape, p.x, p.y);
    let h = shape_height(p.shape);
    assert forall|y: int| 0 <= y < l.len() && !(p.y <= y < p.y + h) implies !is_full(#[trigger] l[y]) by {
        assert(!is_full(g[y]));
        let x = choose|x: int| 0 <= x < g[y].len() && g[y][x] == Case::Empty;
        assert(l[y][x] == locked_cell(g, p.shape, p.x, p.y, x, y));
    }
    lemma_full_rows_in_window(l, p.y, h, l.len() as int);
    assert(l.take(l.len() as int) =~= l);
}

/// A session that is settled stays settled through a tick, and a tick never
/// clears more than four lines.
pub proof fn lemma_tick_keeps_settled(m: GameModel, delta: int, drawn: Case)
    requires
        settled(m),
        delta >= 0,
        drawn != Case::Empty,
    ensures
        settled(tick(m, delta, drawn).0),
        tick(m, delta, drawn).1.lines_cleared <= 4,
{
    lemma_tick_keeps_invariant(m, delta, drawn);
    let (m1, fits) = spawn_step(m, delta, drawn);
    if !m.lost && fits {
        let (m2, done) = gravity_step(m1, delta);
        if done {
            match m1.current {
                Some(p) => {
                    assert(m2.grid == locked(m1.grid, p.shape, p.x, p.y));
                    lemma_lock_fills_few_rows(m1.grid, p);
                },
                None => {},
            }
            lemma_line_clear(m2.grid);
            lemma_split_len(m2.grid);
            let (m3, n) = clear_step(m2);
            let k = full_rows(m2.grid).len() as int;
            assert forall|y: int| 0 <= y < GRID_HEIGHT implies !is_full(#[trigger] m3.grid[y]) by {
                if y < k {
                    assert(m3.grid[y] == empty_row());
                    assert(m3.grid[y][0] == Case::Empty);
                } else {
                    assert(m3.grid[y] == m3.grid.skip(k)[y - k]);
                }
            }
        }
    }
}

/// A shape that starts inside the grid comes to rest inside it, at or below
/// where it started.
proof fn lemma_landing_in_bounds(g: Seq<Seq<Case>>, s: Seq<Seq<Case>>, x: int, y: int)
    requires
        in_bounds(s, x, y),
    ensures
        in_bounds(s, x, landing(g, s, x, y)),
        y <= landing(g, s, x, y),
    decreases GRID_HEIGHT - y,
{
    if !(y >= GRID_HEIGHT || collides(g, s, x, y + 1)) {
        lemma_landing_in_bounds(g, s, x, y + 1);
    }
}

/// Commands leave a settled session settled.
pub proof fn lemma_command_keeps_settled(m: GameModel, cmd: Command)
    requires
        settled(m),
    ensures
        settled(command(m, cmd)),
{
    match m.current {
        Some(p) => {
            lemma_rotate_wf(p.shape);
            lemma_landing_in_bounds(m.grid, p.shape, p.x, p.y);
            let moved = match cmd {
                Command::MoveLeft => moved_horizontally(m, -1),
                Command::MoveRight => moved_horizontally(m, 1),
                Command::SoftDrop => moved_vertically(m, 1),
                Command::HardDrop => dropped(m),
                Command::Rotate => rotated(m),
                _ => m,
            };
            assert(settled(moved));
        },
        None => {},
    }
}

/// Between ticks the lines removed never exceed five times the level, so a
/// tick raises the level exactly when the lines removed first go past five
/// times the level it started at.
pub proof fn lemma_level_up_on_first_excess(m: GameModel, delta: int, drawn: Case)
    requires
        settled(m),
        delta >= 0,
        drawn != Case::Empty,
    ensures
        m.lines <= 5 * m.level,
        tick(m, delta, drawn).0.level == if tick(m, delta, drawn).0.lines > 5 * m.level {
            m.level + 1
        } else {
            m.level
        },
{
    lemma_tick_level(m, delta, drawn);
}


/// Searching down from offset `d`, past offsets that all fit, finds the
/// first blocked offset one row below where the shape comes to rest.
proof fn lemma_first_block_is_landing(g: Seq<Seq<Case>>, s: Seq<Seq<Case>>, x: int, y: int, d: int)
    requires
        wf_shape(s),
        0 <= y,
        1 <= d,
        forall|e: int| 0 <= e < d ==> !#[trigger] collides(g, s, x, y + e),
    ensures
        y + first_block(g, s, x, y, d) - 1 == landing(g, s, x, y + d - 1),
    decreases GRID_HEIGHT - d,
{
    assert(!collides(g, s, x, y + (d - 1)));
    if !(d >= GRID_HEIGHT || collides(g, s, x, y + d)) {
        assert forall|e: int| 0 <= e < d + 1 implies !#[trigger] collides(g, s, x, y + e) by {
            if e < d {
                assert(!collides(g, s, x, y + e));
            }
        }
        lemma_first_block_is_landing(g, s, x, y, d + 1);
    }
}

/// Where the piece in play fits, its ghost shows exactly the row at which a
/// hard drop leaves it.
pub proof fn lemma_ghost_is_landing(g: Seq<Seq<Case>>, p: PieceModel)
    requires
        p.wf(),
        in_bounds(p.shape, p.x, p.y),
        !collides(g, p.shape, p.x, p.y),
    ensures
        ghost_of(g, p) == landing(g, p.shape, p.x, p.y),
{
    assert forall|e: int| 0 <= e < 1 implies !#[trigger] collides(g, p.shape, p.x, p.y + e) by {
        assert(p.y + e == p.y);
    }
    lemma_first_block_is_landing(g, p.shape, p.x, p.y, 1);
}

} // verus!
