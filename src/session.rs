//! A game session: the grid, the piece in play, the queue of upcoming pieces,
//! and the score, level and line counters, driven by ticks and commands.

use vstd::prelude::*;

use rand::Rng;

use crate::grid::{check_collision, in_bounds, lock_piece, new_grid, remove_complete_lines, rows, Grid};
use crate::model::{
    command, dropped, first_block, ghost_of, gravity_step, landing, leveled, moved_horizontally,
    moved_vertically, restarted, rotated, scored, spawn_step, tick, with_ghost, Command, GameModel,
    TickEvents, NEXT_PIECES_COUNT,
};
use crate::piece::{
    cases_rotation_offset, create_piece, fresh, lemma_template_wf, rotated_cases, sample_case, Case,
    Piece, PieceModel, GRID_HEIGHT,
};
use crate::speed::drop_speed;

verus! {

/// Relies on `rand::thread_rng` and `rand::Rng::gen_range` (rand 0.7): the
/// value is drawn from `[low, high)`, and the call panics only when
/// `low >= high`.
#[verifier::external_body]
fn random_in_range(low: u8, high: u8) -> (r: u8)
    requires
        low < high,
    ensures
        low <= r < high,
{
    rand::thread_rng().gen_range(low, high)
}

/// Draws one of the seven piece kinds at random.
pub fn random_case() -> (r: Case)
    ensures
        r != Case::Empty,
{
    let n = random_in_range(1, 8);
    sample_case(n)
}

/// A game session. Times are in nanoseconds. The fields are public for the
/// renderer to read; the session's methods keep them consistent.
pub struct GameState {
    /// The locked cells, indexed by column then row.
    pub grid: Grid,
    /// The piece in play, if any.
    pub current_piece: Option<Piece>,
    /// The row at which the piece in play would come to rest.
    pub current_piece_ghost_offset_y: i32,
    /// The upcoming pieces, the next one first.
    pub next_pieces: Vec<Piece>,
    /// The gravity interval of the current level.
    pub move_speed: u64,
    /// Time spent without a piece in play, towards the next spawn.
    pub timer_piece_generation: u64,
    pub score: i64,
    pub level: u32,
    /// Lines removed since the last restart.
    pub line_removed: u32,
    /// A spawned piece found its cells taken; nothing happens until a restart.
    pub lost: bool,
}

/// The value of an optional piece.
pub open spec fn option_view(p: Option<Piece>) -> Option<PieceModel> {
    match p {
        Some(q) => Some(q@),
        None => None,
    }
}

impl View for GameState {
    type V = GameModel;

    open spec fn view(&self) -> GameModel {
        GameModel {
            grid: rows(self.grid),
            current: option_view(self.current_piece),
            ghost_y: self.current_piece_ghost_offset_y as int,
            queue: self.next_pieces@.map_values(|p: Piece| p@),
            move_speed: self.move_speed as int,
            generation_timer: self.timer_piece_generation as int,
            score: self.score as int,
            level: self.level as int,
            lines: self.line_removed as int,
            lost: self.lost,
        }
    }
}

/// Every kind in `kinds` is a piece kind.
pub open spec fn all_pieces(kinds: Seq<Case>) -> bool {
    forall|i: int| 0 <= i < kinds.len() ==> #[trigger] kinds[i] != Case::Empty
}

/// The row of the ghost of `p`: one above the first downward offset, from
/// zero, at which the piece collides.
fn ghost_row(grid: &Grid, p: &Piece) -> (r: i32)
    requires
        p.wf(),
        in_bounds(p.shape(), p.x as int, p.y as int),
    ensures
        r == ghost_of(rows(*grid), p@),
{
    let ghost g = rows(*grid);
    let mut d: i32 = 0;
    while d < GRID_HEIGHT as i32 && !check_collision(grid, p, 0, d)
        invariant
            0 <= d <= GRID_HEIGHT,
            p.wf(),
            in_bounds(p.shape(), p.x as int, p.y as int),
            g == rows(*grid),
            first_block(g, p.shape(), p.x as int, p.y as int, 0) == first_block(
                g,
                p.shape(),
                p.x as int,
                p.y as int,
                d as int,
            ),
        decreases GRID_HEIGHT - d,
    {
        d = d + 1;
    }
    p.y + d - 1
}

/// The row at which `p`, falling straight down, comes to rest.
fn landing_row(grid: &Grid, p: &Piece) -> (r: i32)
    requires
        p.wf(),
        in_bounds(p.shape(), p.x as int, p.y as int),
    ensures
        r == landing(rows(*grid), p.shape(), p.x as int, p.y as int),
        in_bounds(p.shape(), p.x as int, r as int),
{
    let ghost g = rows(*grid);
    let mut y: i32 = p.y;
    while y < GRID_HEIGHT as i32 && !check_collision(grid, p, 0, y - p.y + 1)
        invariant
            p.wf(),
            0 <= p.y <= y <= GRID_HEIGHT,
            in_bounds(p.shape(), p.x as int, y as int),
            g == rows(*grid),
            landing(g, p.shape(), p.x as int, p.y as int) == landing(
                g,
                p.shape(),
                p.x as int,
                y as int,
            ),
        decreases GRID_HEIGHT - y,
    {
        y = y + 1;
    }
    y
}

impl GameState {
    /// The invariant of a session.
    pub open spec fn wf(&self) -> bool {
        self@.wf()
    }

    /// Builds the queue of fresh pieces of the given kinds.
    fn fresh_queue(kinds: [Case; NEXT_PIECES_COUNT]) -> (q: Vec<Piece>)
        requires
            all_pieces(kinds@),
        ensures
            q@.map_values(|p: Piece| p@) == restarted(kinds@).queue,
    {
        let mut q: Vec<Piece> = Vec::new();
        let mut i: usize = 0;
        assert(kinds@.len() == NEXT_PIECES_COUNT);
        while i < NEXT_PIECES_COUNT
            invariant
                i <= NEXT_PIECES_COUNT,
                all_pieces(kinds@),
                kinds@.len() == NEXT_PIECES_COUNT,
                q@.len() == i,
                q@.map_values(|p: Piece| p@) == restarted(kinds@).queue.take(i as int),
            decreases NEXT_PIECES_COUNT - i,
        {
            let k = kinds[i];
            assert(k == kinds@[i as int]);
            let piece = create_piece(k);
            let ghost before = q@;
            q.push(piece);
            assert(q@[i as int]@ == fresh(kinds@[i as int]));
            assert(forall|j: int| 0 <= j < i ==> q@[j] == before[j]);
            i = i + 1;
            assert(q@.map_values(|p: Piece| p@) =~= restarted(kinds@).queue.take(i as int));
        }
        assert(restarted(kinds@).queue.take(NEXT_PIECES_COUNT as int) =~= restarted(kinds@).queue);
        q
    }

    /// A new session whose queue holds fresh pieces of the given kinds.
    pub fn new_with(kinds: [Case; NEXT_PIECES_COUNT]) -> (r: GameState)
        requires
            all_pieces(kinds@),
        ensures
            r@ == restarted(kinds@),
            r.wf(),
    {
        let r = GameState {
            grid: new_grid(),
            current_piece: None,
            current_piece_ghost_offset_y: 0,
            next_pieces: Self::fresh_queue(kinds),
            move_speed: drop_speed(1),
            timer_piece_generation: 0,
            score: 0,
            level: 1,
            line_removed: 0,
            lost: false,
        };
        assert(r@ =~= restarted(kinds@));
        r
    }

    /// A new session with a queue of random pieces.
    pub fn new() -> (r: GameState)
        ensures
            exists|kinds: Seq<Case>|
                kinds.len() == NEXT_PIECES_COUNT && all_pieces(kinds) && r@ == restarted(kinds),
            r.wf(),
    {
        let kinds = [random_case(), random_case(), random_case()];
        Self::new_with(kinds)
    }

    /// Restarts the session with a queue of fresh pieces of the given kinds,
    /// whatever its state.
    pub fn reset_with(&mut self, kinds: [Case; NEXT_PIECES_COUNT])
        requires
            all_pieces(kinds@),
        ensures
            final(self)@ == restarted(kinds@),
            final(self).wf(),
    {
        *self = Self::new_with(kinds);
    }

    /// Restarts the session with a queue of random pieces, whatever its state.
    pub fn reset(&mut self)
        ensures
            exists|kinds: Seq<Case>|
                kinds.len() == NEXT_PIECES_COUNT && all_pieces(kinds) && final(self)@ == restarted(kinds),
            final(self).wf(),
    {
        let kinds = [random_case(), random_case(), random_case()];
        self.reset_with(kinds);
    }

    /// Recomputes the ghost row of the piece in play.
    pub fn update_current_piece_ghost(&mut self)
        requires
            old(self).wf(),
        ensures
            final(self)@ == with_ghost(old(self)@),
            final(self).wf(),
    {
        match &self.current_piece {
            None => {},
            Some(p) => {
                self.current_piece_ghost_offset_y = ghost_row(&self.grid, p);
            },
        }
    }

    /// Moves the piece in play sideways by `dx` columns if it fits there.
    pub fn piece_move_horizontally(&mut self, dx: i32)
        requires
            old(self).wf(),
        ensures
            final(self)@ == moved_horizontally(old(self)@, dx as int),
            final(self).wf(),
    {
        let taken = self.current_piece.take();
        match taken {
            None => {},
            Some(mut p) => {
                if !check_collision(&self.grid, &p, dx, 0) {
                    p.x = p.x + dx;
                }
                self.current_piece = Some(p);
            },
        }
    }

    /// Moves the piece in play down by `dy` rows if it fits there, and then
    /// restarts its fall timer.
    pub fn piece_move_vertically(&mut self, dy: i32)
        requires
            old(self).wf(),
        ensures
            final(self)@ == moved_vertically(old(self)@, dy as int),
            final(self).wf(),
    {
        let taken = self.current_piece.take();
        match taken {
            None => {},
            Some(mut p) => {
                if !check_collision(&self.grid, &p, 0, dy) {
                    p.y = p.y + dy;
                    p.last_move = 0;
                }
                self.current_piece = Some(p);
            },
        }
    }

    /// Moves the piece in play straight down as far as it fits. The piece
    /// locks at the next gravity step, not here.
    pub fn piece_drop(&mut self)
        requires
            old(self).wf(),
        ensures
            final(self)@ == dropped(old(self)@),
            final(self).wf(),
    {
        let taken = self.current_piece.take();
        match taken {
            None => {},
            Some(mut p) => {
                p.y = landing_row(&self.grid, &p);
                self.current_piece = Some(p);
            },
        }
    }

    /// Turns the piece in play a quarter turn clockwise, offset by its kind's
    /// rotation offset and kept below the top edge, then tries it in place, one
    /// column left, one column right and one row up. Where none fits, the piece
    /// stays as it was.
    pub fn rotate(&mut self)
        requires
            old(self).wf(),
        ensures
            final(self)@ == rotated(old(self)@),
            final(self).wf(),
    {
        let taken = self.current_piece.take();
        match taken {
            None => {},
            Some(old_piece) => {
                let tmp_cases = rotated_cases(&old_piece.cases);
                let offset = cases_rotation_offset(old_piece.case, old_piece.index_rotation);
                let mut piece = Piece {
                    case: old_piece.case,
                    x: old_piece.x + offset.x,
                    y: old_piece.y + offset.y,
                    last_move: old_piece.last_move,
                    cases: tmp_cases,
                    index_rotation: (old_piece.index_rotation + 1) % 4,
                };
                if piece.y < 0 {
                    piece.y = 0;
                }
                let mut ok = !check_collision(&self.grid, &piece, 0, 0);
                if !ok {
                    piece.x = piece.x - 1;
                    ok = !check_collision(&self.grid, &piece, 0, 0);
                }
                if !ok {
                    piece.x = piece.x + 2;
                    ok = !check_collision(&self.grid, &piece, 0, 0);
                }
                if !ok {
                    piece.x = piece.x - 1;
                    piece.y = piece.y - 1;
                    ok = !check_collision(&self.grid, &piece, 0, 0);
                }
                if ok {
                    self.current_piece = Some(piece);
                } else {
                    self.current_piece = Some(old_piece);
                }
            },
        }
    }

    /// With no piece in play, advances the spawn timer by `delta`; once it
    /// exceeds the gravity interval, the head of the queue enters play and a
    /// fresh piece of kind `drawn` joins the queue's tail. Returns whether the
    /// piece in play fits where it stands.
    pub fn generate_piece(&mut self, delta: u64, drawn: Case) -> (r: bool)
        requires
            old(self).wf(),
            drawn != Case::Empty,
        ensures
            (final(self)@, r) == spawn_step(old(self)@, delta as int, drawn),
            final(self).wf(),
    {
        if self.current_piece.is_some() {
            return true;
        }
        self.timer_piece_generation = self.timer_piece_generation.saturating_add(delta);
        if self.timer_piece_generation > self.move_speed {
            let ghost q0 = self.next_pieces@;
            assert(q0.map_values(|p: Piece| p@)[0] == q0[0]@);
            let piece = self.next_pieces.remove(0);
            proof {
                lemma_template_wf(piece.case);
            }
            self.timer_piece_generation = 0;
            let fit_in_grid = !check_collision(&self.grid, &piece, 0, 0);
            self.current_piece_ghost_offset_y = ghost_row(&self.grid, &piece);
            self.current_piece = Some(piece);
            let next = create_piece(drawn);
            self.next_pieces.push(next);
            assert(self.next_pieces@.map_values(|p: Piece| p@) =~= q0.map_values(|p: Piece| p@).drop_first().push(fresh(drawn)));
            return fit_in_grid;
        }
        true
    }

    /// Advances the fall timer of the piece in play by `delta`; once it
    /// exceeds the gravity interval the piece moves down a row, or, where it
    /// cannot, locks into the grid and leaves play. Returns whether it locked.
    pub fn piece_move_down(&mut self, delta: u64) -> (r: bool)
        requires
            old(self).wf(),
        ensures
            (final(self)@, r) == gravity_step(old(self)@, delta as int),
            final(self).wf(),
    {
        let taken = self.current_piece.take();
        match taken {
            None => false,
            Some(mut p) => {
                let t = p.last_move.saturating_add(delta);
                if t > self.move_speed {
                    if check_collision(&self.grid, &p, 0, 1) {
                        lock_piece(&mut self.grid, &p);
                        true
                    } else {
                        p.y = p.y + 1;
                        p.last_move = 0;
                        self.current_piece = Some(p);
                        false
                    }
                } else {
                    p.last_move = t;
                    self.current_piece = Some(p);
                    false
                }
            },
        }
    }

    /// Adds the points for clearing `line_removed` lines at once: 40, 100,
    /// 300 or 1200 times the level for one to four lines, capped at the
    /// largest score.
    pub fn compute_score(&mut self, line_removed: u32)
        requires
            old(self).wf(),
        ensures
            final(self)@ == scored(old(self)@, line_removed as int),
            final(self).wf(),
    {
        let factor: i64 = if line_removed == 1 {
            40
        } else if line_removed == 2 {
            100
        } else if line_removed == 3 {
            300
        } else if line_removed == 4 {
            1200
        } else {
            0
        };
        let points: i64 = factor * (self.level as i64);
        if self.score > i64::MAX - points {
            self.score = i64::MAX;
        } else {
            self.score = self.score + points;
        }
    }

    /// Raises the level by one once the lines removed exceed five times the
    /// level, and sets the gravity interval of the new level.
    pub fn increase_level(&mut self)
        requires
            old(self).wf(),
        ensures
            final(self)@ == leveled(old(self)@),
            final(self).wf(),
    {
        if self.line_removed as u64 > self.level as u64 * 5 {
            self.level = self.level + 1;
            self.move_speed = drop_speed(self.level);
        }
    }

    /// One tick of `delta` nanoseconds: spawn, gravity, then line clearing,
    /// with `drawn` the kind that joins the queue if a piece spawns.
    pub fn update_with(&mut self, delta: u64, drawn: Case) -> (r: TickEvents)
        requires
            old(self).wf(),
            drawn != Case::Empty,
        ensures
            (final(self)@, r) == tick(old(self)@, delta as int, drawn),
            final(self).wf(),
    {
        if self.lost {
            return TickEvents { lines_cleared: 0, level_up: None, game_over: false };
        }
        let fits = self.generate_piece(delta, drawn);
        if !fits {
            self.lost = true;
            return TickEvents { lines_cleared: 0, level_up: None, game_over: true };
        }
        let piece_is_done = self.piece_move_down(delta);
        if !piece_is_done {
            return TickEvents { lines_cleared: 0, level_up: None, game_over: false };
        }
        let level_before = self.level;
        let line_removed = remove_complete_lines(&mut self.grid);
        if line_removed > 0 {
            self.compute_score(line_removed);
            self.line_removed = self.line_removed.saturating_add(line_removed);
            self.increase_level();
        }
        let level_up = if self.level != level_before {
            Some(self.level)
        } else {
            None
        };
        TickEvents { lines_cleared: line_removed, level_up: level_up, game_over: false }
    }

    /// One tick of `delta` nanoseconds, drawing at random the kind that joins
    /// the queue if a piece spawns.
    pub fn update(&mut self, delta: u64) -> (r: TickEvents)
        requires
            old(self).wf(),
        ensures
            exists|drawn: Case|
                drawn != Case::Empty && (final(self)@, r) == tick(old(self)@, delta as int, drawn),
            final(self).wf(),
    {
        let drawn = random_case();
        self.update_with(delta, drawn)
    }

    /// Applies a player command. A restart draws a new queue at random; any
    /// other command moves or turns the piece in play and recomputes the
    /// ghost row.
    pub fn apply_command(&mut self, cmd: Command)
        requires
            old(self).wf(),
        ensures
            cmd == Command::Restart ==> exists|kinds: Seq<Case>|
                kinds.len() == NEXT_PIECES_COUNT && all_pieces(kinds) && final(self)@ == restarted(kinds),
            cmd != Command::Restart ==> final(self)@ == command(old(self)@, cmd),
            final(self).wf(),
    {
        if self.lost {
            if cmd == Command::Restart {
                self.reset();
            }
            return;
        }
        match cmd {
            Command::MoveLeft => self.piece_move_horizontally(-1),
            Command::MoveRight => self.piece_move_horizontally(1),
            Command::SoftDrop => self.piece_move_vertically(1),
            Command::HardDrop => self.piece_drop(),
            Command::Rotate => self.rotate(),
            Command::Restart => self.reset(),
            Command::ToggleMute => {},
        }
        self.update_current_piece_ghost();
    }
}

} // verus!
