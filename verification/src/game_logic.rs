//! The level state machine: the cell grid, the player, the movement and
//! push rule, and the win check.

use vstd::prelude::*;

verus! {

/// States a game cell can be in. The player is tracked separately and is
/// not a cell state; `Player` exists only as a parse/render token.
#[derive(Debug, Hash, Clone, Copy, PartialEq, Eq, Structural)]
pub enum GameCell {
    Empty,
    Box,
    Player,
    Sink,
    SinkWithBox,
    Unmovable,
}

/// A grid coordinate or a direction vector. Bounds are the grid's
/// responsibility, not the type's.
#[derive(Debug, Hash, Clone, Copy, PartialEq, Eq, Structural)]
pub struct Point {
    pub x: i32,
    pub y: i32,
}

/// The explicit "no move" sentinel among the direction values.
pub open spec fn is_no_move(d: Point) -> bool {
    d.x == 0 && d.y == 0
}

/// True of the five values the movement rule accepts as a direction: the
/// four unit vectors and the "no move" sentinel.
pub open spec fn is_direction(d: Point) -> bool {
    ||| (d.x == 0 && d.y == 0)
    ||| (d.x == 0 && d.y == -1)
    ||| (d.x == 0 && d.y == 1)
    ||| (d.x == 1 && d.y == 0)
    ||| (d.x == -1 && d.y == 0)
}

impl Point {
    /// Vector addition, as the movement rule uses it.
    pub fn plus(self, other: Point) -> (r: Point)
        requires
            i32::MIN <= self.x + other.x <= i32::MAX,
            i32::MIN <= self.y + other.y <= i32::MAX,
        ensures
            r.x == self.x + other.x,
            r.y == self.y + other.y,
    {
        Point { x: self.x + other.x, y: self.y + other.y }
    }
}

/// The mathematical model of a grid: dimensions, a row-major cell sequence
/// and the player's position.
#[verifier::ext_equal]
pub ghost struct GridView {
    pub width: int,
    pub height: int,
    pub cells: Seq<GameCell>,
    pub player: Point,
}

impl GridView {
    pub open spec fn in_bounds(self, x: int, y: int) -> bool {
        0 <= x < self.width && 0 <= y < self.height
    }

    /// The cell at (x, y); out-of-bounds coordinates read as `Unmovable`,
    /// so the board boundary acts as an implicit wall.
    pub open spec fn cell(self, x: int, y: int) -> GameCell {
        if self.in_bounds(x, y) {
            self.cells[y * self.width + x]
        } else {
            GameCell::Unmovable
        }
    }

    /// Well-formedness: dimensions are positive, fit the `u16` constructor
    /// limits, the cell sequence covers the whole board, and the player
    /// stands in bounds.
    pub open spec fn wf(self) -> bool {
        &&& 1 <= self.width <= u16::MAX
        &&& 1 <= self.height <= u16::MAX
        &&& self.width * self.height <= u16::MAX
        &&& self.cells.len() == self.width * self.height
        &&& self.in_bounds(self.player.x as int, self.player.y as int)
    }

    /// (x, y) is unoccupied: neither wall nor box, so the player or a
    /// pushed box may enter. Out-of-bounds coordinates are never free.
    pub open spec fn free_at(self, x: int, y: int) -> bool {
        self.cell(x, y) == GameCell::Empty || self.cell(x, y) == GameCell::Sink
    }

    /// (x, y) holds a pushable box.
    pub open spec fn box_at(self, x: int, y: int) -> bool {
        self.cell(x, y) == GameCell::Box || self.cell(x, y) == GameCell::SinkWithBox
    }

    /// The win condition: no cell is in state `Box`, so every box rests on
    /// a sink.
    pub open spec fn solved(self) -> bool {
        forall|i: int| 0 <= i < self.cells.len() ==> self.cells[i] != GameCell::Box
    }

    /// The board after a box leaves (opx, opy) for (npx, npy): the source
    /// reverts to `Sink` or `Empty`, the destination becomes `SinkWithBox`
    /// or `Box`, according to whether each sat on a sink.
    pub open spec fn push_box(self, opx: int, opy: int, npx: int, npy: int) -> GridView {
        let cleared = if self.cell(opx, opy) == GameCell::SinkWithBox {
            GameCell::Sink
        } else {
            GameCell::Empty
        };
        let filled = if self.cell(npx, npy) == GameCell::Sink {
            GameCell::SinkWithBox
        } else {
            GameCell::Box
        };
        GridView {
            cells: self.cells.update(npy * self.width + npx, filled).update(
                opy * self.width + opx,
                cleared,
            ),
            ..self
        }
    }

    /// The movement rule accepts `dir` exactly when it is a real direction
    /// and the target cell is free, or holds a box whose far side is free.
    pub open spec fn move_accepted(self, dir: Point) -> bool {
        let tx = self.player.x + dir.x;
        let ty = self.player.y + dir.y;
        &&& !is_no_move(dir)
        &&& (self.free_at(tx, ty) || (self.box_at(tx, ty) && self.free_at(
            tx + dir.x,
            ty + dir.y,
        )))
    }

    /// The board after one application of the movement rule: unchanged on a
    /// rejected move; otherwise the player advances one cell, pushing at
    /// most one box one cell further.
    pub open spec fn after_move(self, dir: Point) -> GridView {
        let tx = self.player.x + dir.x;
        let ty = self.player.y + dir.y;
        if !self.move_accepted(dir) {
            self
        } else if self.free_at(tx, ty) {
            GridView { player: Point { x: tx as i32, y: ty as i32 }, ..self }
        } else {
            GridView {
                player: Point { x: tx as i32, y: ty as i32 },
                ..self.push_box(tx, ty, tx + dir.x, ty + dir.y)
            }
        }
    }
}

/// A cell that carries a box, whether or not it also carries a sink.
pub open spec fn is_box_cell(c: GameCell) -> bool {
    c == GameCell::Box || c == GameCell::SinkWithBox
}

/// How many cells of the sequence carry a box.
pub open spec fn count_boxes(cells: Seq<GameCell>) -> nat
    decreases cells.len(),
{
    if cells.len() == 0 {
        0
    } else {
        count_boxes(cells.drop_last()) + if is_box_cell(cells.last()) {
            1nat
        } else {
            0nat
        }
    }
}

/// Overwriting one cell changes the box count by the difference the two
/// cells contribute.
pub proof fn lemma_count_boxes_update(cells: Seq<GameCell>, i: int, c: GameCell)
    requires
        0 <= i < cells.len(),
    ensures
        count_boxes(cells.update(i, c)) == count_boxes(cells) - (if is_box_cell(cells[i]) {
            1int
        } else {
            0int
        }) + (if is_box_cell(c) {
            1int
        } else {
            0int
        }),
    decreases cells.len(),
{
    let u = cells.update(i, c);
    if i == cells.len() - 1 {
        assert(u.drop_last() =~= cells.drop_last());
    } else {
        assert(u.drop_last() =~= cells.drop_last().update(i, c));
        lemma_count_boxes_update(cells.drop_last(), i, c);
    }
}

/// Row-major cell indices stay inside the board.
pub(crate) proof fn lemma_index_in_range(w: int, h: int, x: int, y: int)
    requires
        0 <= x < w,
        0 <= y < h,
    ensures
        0 <= y * w + x < w * h,
{
    assert(0 <= y * w + x < w * h) by (nonlinear_arith)
        requires
            0 <= x < w,
            0 <= y < h;
}

/// Distinct in-bounds coordinates have distinct row-major indices.
pub(crate) proof fn lemma_index_injective(w: int, h: int, x1: int, y1: int, x2: int, y2: int)
    requires
        0 <= x1 < w,
        0 <= y1 < h,
        0 <= x2 < w,
        0 <= y2 < h,
        !(x1 == x2 && y1 == y2),
    ensures
        y1 * w + x1 != y2 * w + x2,
{
    assert(y1 * w + x1 != y2 * w + x2) by (nonlinear_arith)
        requires
            0 <= x1 < w,
            0 <= y1 < h,
            0 <= x2 < w,
            0 <= y2 < h,
            !(x1 == x2 && y1 == y2);
}

/// A rectangular board of cells plus the player's position.
#[derive(Hash, Clone, PartialEq, Eq)]
pub struct GameState {
    width: i32,
    height: i32,
    cells: Vec<GameCell>,
    joan: Point,
}

impl View for GameState {
    type V = GridView;

    closed spec fn view(&self) -> GridView {
        GridView {
            width: self.width as int,
            height: self.height as int,
            cells: self.cells@,
            player: self.joan,
        }
    }
}

impl GameState {
    /// A fresh board of the given dimensions, all cells empty, with the
    /// player at the origin.
    pub fn new(width: u16, height: u16) -> (r: GameState)
        requires
            1 <= width,
            1 <= height,
            width * height <= u16::MAX,
        ensures
            r@.wf(),
            r@.width == width,
            r@.height == height,
            r@.player == (Point { x: 0, y: 0 }),
            forall|i: int| 0 <= i < r@.cells.len() ==> r@.cells[i] == GameCell::Empty,
    {
        let n: usize = (width * height) as usize;
        let mut cells: Vec<GameCell> = Vec::new();
        let mut i: usize = 0;
        while i < n
            invariant
                i <= n,
                cells@.len() == i,
                forall|j: int| 0 <= j < i ==> cells@[j] == GameCell::Empty,
            decreases n - i,
        {
            cells.push(GameCell::Empty);
            i += 1;
        }
        GameState { width: width as i32, height: height as i32, cells, joan: Point { x: 0, y: 0 } }
    }

    pub fn width(&self) -> (r: i32)
        ensures
            r == self@.width,
    {
        self.width
    }

    pub fn height(&self) -> (r: i32)
        ensures
            r == self@.height,
    {
        self.height
    }

    pub fn get_player_position(&self) -> (r: Point)
        ensures
            r == self@.player,
    {
        self.joan
    }

    /// Unchecked mutator: keeping the position in bounds is the caller's
    /// responsibility, so it stands in the precondition.
    pub fn set_player_position(&mut self, position: &Point)
        requires
            old(self)@.in_bounds(position.x as int, position.y as int),
        ensures
            final(self)@ == (GridView { player: *position, ..old(self)@ }),
            old(self)@.wf() ==> final(self)@.wf(),
    {
        self.joan = *position;
    }

    /// The cell at `position`; any out-of-bounds position reads as
    /// `Unmovable`, the implicit boundary wall.
    pub fn get_cell(&self, position: &Point) -> (r: GameCell)
        requires
            self@.wf(),
        ensures
            r == self@.cell(position.x as int, position.y as int),
    {
        if position.x >= 0 && position.x < self.width && position.y >= 0 && position.y < self.height
        {
            proof {
                lemma_index_in_range(
                    self@.width,
                    self@.height,
                    position.x as int,
                    position.y as int,
                );
            }
            self.cells[(position.y * self.width + position.x) as usize]
        } else {
            GameCell::Unmovable
        }
    }

    /// Writes `cell` at `position` if it is in bounds; a write outside the
    /// board is a silent no-op.
    pub fn set_cell(&mut self, position: &Point, cell: GameCell)
        requires
            old(self)@.wf(),
        ensures
            final(self)@.wf(),
            final(self)@.width == old(self)@.width,
            final(self)@.height == old(self)@.height,
            final(self)@.player == old(self)@.player,
            final(self)@.cells.len() == old(self)@.cells.len(),
            old(self)@.in_bounds(position.x as int, position.y as int) ==> final(self)@.cells
                == old(self)@.cells.update(
                position.y as int * old(self)@.width + position.x as int,
                cell,
            ),
            !old(self)@.in_bounds(position.x as int, position.y as int) ==> final(self)@.cells
                == old(self)@.cells,
            forall|i: int, j: int|
                final(self)@.cell(i, j) == if i == position.x as int && j == position.y as int
                    && old(self)@.in_bounds(i, j) {
                    cell
                } else {
                    old(self)@.cell(i, j)
                },
    {
        if position.x >= 0 && position.x < self.width && position.y >= 0 && position.y < self.height
        {
            proof {
                lemma_index_in_range(
                    self@.width,
                    self@.height,
                    position.x as int,
                    position.y as int,
                );
            }
            let idx: usize = (position.y * self.width + position.x) as usize;
            self.cells.set(idx, cell);
            proof {
                assert forall|i: int, j: int|
                    self@.cell(i, j) == if i == position.x as int && j == position.y as int
                        && old(self)@.in_bounds(i, j) {
                        cell
                    } else {
                        old(self)@.cell(i, j)
                    } by {
                    if old(self)@.in_bounds(i, j) && !(i == position.x as int && j
                        == position.y as int) {
                        lemma_index_injective(
                            old(self)@.width,
                            old(self)@.height,
                            i,
                            j,
                            position.x as int,
                            position.y as int,
                        );
                        lemma_index_in_range(old(self)@.width, old(self)@.height, i, j);
                    }
                }
            }
        }
    }

    /// The cell at `pos` is unoccupied by wall or box.
    fn is_empty_or_sink(&self, pos: &Point) -> (r: bool)
        requires
            self@.wf(),
        ensures
            r == self@.free_at(pos.x as int, pos.y as int),
    {
        let cell = self.get_cell(pos);
        cell == GameCell::Empty || cell == GameCell::Sink
    }

    /// The cell at `pos` holds a pushable box.
    fn is_occupied_by_box(&self, pos: &Point) -> (r: bool)
        requires
            self@.wf(),
        ensures
            r == self@.box_at(pos.x as int, pos.y as int),
    {
        let cell = self.get_cell(pos);
        cell == GameCell::Box || cell == GameCell::SinkWithBox
    }

    /// Moves a box from `old_pos` to `new_pos` if `old_pos` really holds a
    /// box and `new_pos` is free; reports whether it did. A failed attempt
    /// changes nothing.
    fn try_move_box(&mut self, old_pos: &Point, new_pos: &Point) -> (r: bool)
        requires
            old(self)@.wf(),
        ensures
            final(self)@.wf(),
            r == (old(self)@.free_at(new_pos.x as int, new_pos.y as int) && old(self)@.box_at(
                old_pos.x as int,
                old_pos.y as int,
            )),
            r ==> final(self)@ == old(self)@.push_box(
                old_pos.x as int,
                old_pos.y as int,
                new_pos.x as int,
                new_pos.y as int,
            ),
            !r ==> final(self)@ == old(self)@,
            count_boxes(final(self)@.cells) == count_boxes(old(self)@.cells),
    {
        if !self.is_empty_or_sink(new_pos) || !self.is_occupied_by_box(old_pos) {
            return false;
        }
        let ghost pre = self@;
        let ghost opx = old_pos.x as int;
        let ghost opy = old_pos.y as int;
        let ghost npx = new_pos.x as int;
        let ghost npy = new_pos.y as int;
        let old_cell = self.get_cell(old_pos);
        let new_cell = self.get_cell(new_pos);
        if new_cell == GameCell::Sink {
            self.set_cell(new_pos, GameCell::SinkWithBox);
        } else {
            // GameCell::Empty
            self.set_cell(new_pos, GameCell::Box);
        }
        if old_cell == GameCell::SinkWithBox {
            self.set_cell(old_pos, GameCell::Sink);
        } else {
            // GameCell::Box
            self.set_cell(old_pos, GameCell::Empty);
        }
        proof {
            assert(self@ =~= pre.push_box(opx, opy, npx, npy));
            lemma_index_injective(pre.width, pre.height, opx, opy, npx, npy);
            lemma_index_in_range(pre.width, pre.height, opx, opy);
            lemma_index_in_range(pre.width, pre.height, npx, npy);
            let filled = if pre.cell(npx, npy) == GameCell::Sink {
                GameCell::SinkWithBox
            } else {
                GameCell::Box
            };
            let cleared = if pre.cell(opx, opy) == GameCell::SinkWithBox {
                GameCell::Sink
            } else {
                GameCell::Empty
            };
            let mid = pre.cells.update(npy * pre.width + npx, filled);
            lemma_count_boxes_update(pre.cells, npy * pre.width + npx, filled);
            lemma_count_boxes_update(mid, opy * pre.width + opx, cleared);
        }
        return true;
    }

    /// One application of the movement rule (the core algorithm): on a real
    /// direction the player moves onto a free target, or pushes a single
    /// box one cell onto a free cell beyond; anything else is rejected with
    /// no mutation. The result says whether the move was accepted.
    pub fn try_perform_move(&mut self, direction: &Point) -> (r: bool)
        requires
            old(self)@.wf(),
            is_direction(*direction),
        ensures
            final(self)@.wf(),
            r == old(self)@.move_accepted(*direction),
            final(self)@ == old(self)@.after_move(*direction),
            count_boxes(final(self)@.cells) == count_boxes(old(self)@.cells),
            is_no_move(*direction) ==> !r && final(self)@ == old(self)@,
            !r ==> final(self)@ == old(self)@,
    {
        if direction.x == 0 && direction.y == 0 {
            return false;
        }
        let desired_position = direction.plus(self.get_player_position());
        if self.is_empty_or_sink(&desired_position) {
            self.set_player_position(&desired_position);
            proof {
                assert(self@ =~= old(self)@.after_move(*direction));
            }
            return true;
        } else {
            let beyond = desired_position.plus(*direction);
            if !self.try_move_box(&desired_position, &beyond) {
                return false;
            }
            self.set_player_position(&desired_position);
            proof {
                assert(self@ =~= old(self)@.after_move(*direction));
            }
            return true;
        }
    }

    /// The win check: true exactly when no cell is in state `Box`, i.e.
    /// every box rests on a sink. Recomputed fresh on every call.
    pub fn all_boxes_on_sinks(&self) -> (r: bool)
        ensures
            r == self@.solved(),
    {
        let mut i: usize = 0;
        while i < self.cells.len()
            invariant
                i <= self.cells@.len(),
                forall|j: int| 0 <= j < i ==> self.cells@[j] != GameCell::Box,
            decreases self.cells@.len() - i,
        {
            if self.cells[i] == GameCell::Box {
                return false;
            }
            i += 1;
        }
        true
    }

    /// The board as text, one byte per cell and a newline after each row:
    /// the player's cell shows `P`, every other cell its token. The text is
    /// what a terminal front end prints.
    pub fn board_text(&self) -> (r: Vec<char>)
        requires
            self@.wf(),
        ensures
            r@.len() == self@.height * (self@.width + 1),
            forall|x: int, y: int|
                0 <= x < self@.width && 0 <= y < self@.height ==> r@[y * (self@.width + 1) + x]
                    == cell_token(self@, x, y),
            forall|y: int|
                0 <= y < self@.height ==> #[trigger] r@[y * (self@.width + 1) + self@.width]
                    == '\n',
    {
        let ghost w = self@.width;
        let ghost h = self@.height;
        let mut out: Vec<char> = Vec::new();
        let mut y: i32 = 0;
        while y < self.height
            invariant
                self@.wf(),
                w == self@.width,
                h == self@.height,
                0 <= y <= h,
                out@.len() == y * (w + 1),
                forall|i: int, j: int|
                    0 <= i < w && 0 <= j < y ==> out@[j * (w + 1) + i] == cell_token(self@, i, j),
                forall|j: int| 0 <= j < y ==> #[trigger] out@[j * (w + 1) + w] == '\n',
            decreases h - y,
        {
            let mut x: i32 = 0;
            while x < self.width
                invariant
                    self@.wf(),
                    w == self@.width,
                    h == self@.height,
                    0 <= y < h,
                    0 <= x <= w,
                    out@.len() == y * (w + 1) + x,
                    forall|i: int, j: int|
                        0 <= i < w && 0 <= j < y ==> out@[j * (w + 1) + i] == cell_token(
                            self@,
                            i,
                            j,
                        ),
                    forall|j: int| 0 <= j < y ==> #[trigger] out@[j * (w + 1) + w] == '\n',
                    forall|i: int| 0 <= i < x ==> out@[y * (w + 1) + i] == cell_token(self@, i, y as int),
                decreases w - x,
            {
                let pos = Point { x, y };
                let cell = self.get_cell(&pos);
                let token: char = if pos == self.get_player_position() {
                    'P'
                } else {
                    match cell {
                        GameCell::Box => 'b',
                        GameCell::Empty => '_',
                        GameCell::Player => '@',
                        GameCell::Sink => '.',
                        GameCell::SinkWithBox => 'B',
                        GameCell::Unmovable => '#',
                    }
                };
                out.push(token);
                proof {
                    lemma_text_index_order(w, y as int, x as int);
                }
                x += 1;
            }
            out.push('\n');
            proof {
                lemma_text_index_order(w, y as int, w);
                assert((y + 1) * (w + 1) == y * (w + 1) + (w + 1)) by (nonlinear_arith);
            }
            y += 1;
        }
        out
    }
}

/// The byte the text renderer writes for (x, y).
pub open spec fn cell_token(g: GridView, x: int, y: int) -> char {
    if g.player.x == x && g.player.y == y {
        'P'
    } else {
        match g.cell(x, y) {
            GameCell::Box => 'b',
            GameCell::Empty => '_',
            GameCell::Player => '@',
            GameCell::Sink => '.',
            GameCell::SinkWithBox => 'B',
            GameCell::Unmovable => '#',
        }
    }
}

/// A level in play: a board, a step counter and display-only metadata.
pub struct Game {
    steps: i16,
    title: String,
    author: String,
    state: GameState,
}

/// The mathematical model of a level in play.
#[verifier::ext_equal]
pub ghost struct GameView {
    pub steps: int,
    pub title: Seq<char>,
    pub author: Seq<char>,
    pub state: GridView,
}

impl View for Game {
    type V = GameView;

    closed spec fn view(&self) -> GameView {
        GameView {
            steps: self.steps as int,
            title: self.title@,
            author: self.author@,
            state: self.state@,
        }
    }
}

impl Game {
    /// Wraps a freshly loaded board with a zeroed step counter.
    pub fn new(initial: GameState, title: String, author: String) -> (r: Game)
        ensures
            r@.steps == 0,
            r@.title == title@,
            r@.author == author@,
            r@.state == initial@,
    {
        Game { steps: 0, title, author, state: initial }
    }

    pub fn state(&self) -> (r: &GameState)
        ensures
            r@ == self@.state,
    {
        &self.state
    }

    pub fn title(&self) -> (r: &str)
        ensures
            r@ == self@.title,
    {
        &self.title
    }

    pub fn author(&self) -> (r: &str)
        ensures
            r@ == self@.author,
    {
        &self.author
    }

    /// How many moves have been accepted so far.
    pub fn steps(&self) -> (r: i16)
        ensures
            r == self@.steps,
    {
        self.steps
    }

    /// One application of the movement rule; an accepted move also counts
    /// one step. A rejected move changes nothing at all.
    pub fn try_perform_move(&mut self, direction: &Point) -> (r: bool)
        requires
            old(self)@.state.wf(),
            is_direction(*direction),
            old(self)@.steps < i16::MAX,
        ensures
            final(self)@.state.wf(),
            r == old(self)@.state.move_accepted(*direction),
            final(self)@.state == old(self)@.state.after_move(*direction),
            final(self)@.steps == old(self)@.steps + if r {
                1int
            } else {
                0int
            },
            final(self)@.title == old(self)@.title,
            final(self)@.author == old(self)@.author,
            count_boxes(final(self)@.state.cells) == count_boxes(old(self)@.state.cells),
            is_no_move(*direction) ==> !r && final(self)@ == old(self)@,
            !r ==> final(self)@ == old(self)@,
    {
        if self.state.try_perform_move(direction) {
            self.steps = self.steps + 1;
            return true;
        }
        false
    }

    /// The win check, recomputed fresh on every call.
    pub fn is_game_won(&self) -> (r: bool)
        ensures
            r == self@.state.solved(),
    {
        self.state.all_boxes_on_sinks()
    }
}

/// Boxes are conserved: one application of the movement rule never
/// changes the number of cells that carry a box, so every state reachable
/// from a level's initial state holds the initial box count.
pub proof fn lemma_move_preserves_box_count(g: GridView, dir: Point)
    requires
        g.wf(),
    ensures
        count_boxes(g.after_move(dir).cells) == count_boxes(g.cells),
{
    if g.move_accepted(dir) {
        let tx = g.player.x + dir.x;
        let ty = g.player.y + dir.y;
        if !g.free_at(tx, ty) {
            let bx = tx + dir.x;
            let by = ty + dir.y;
            lemma_index_in_range(g.width, g.height, tx, ty);
            lemma_index_in_range(g.width, g.height, bx, by);
            lemma_index_injective(g.width, g.height, tx, ty, bx, by);
            let filled = if g.cell(bx, by) == GameCell::Sink {
                GameCell::SinkWithBox
            } else {
                GameCell::Box
            };
            let cleared = if g.cell(tx, ty) == GameCell::SinkWithBox {
                GameCell::Sink
            } else {
                GameCell::Empty
            };
            let mid = g.cells.update(by * g.width + bx, filled);
            lemma_count_boxes_update(g.cells, by * g.width + bx, filled);
            lemma_count_boxes_update(mid, ty * g.width + tx, cleared);
        }
    }
}

/// A cell that carries a sink, whether or not a box rests on it.
pub open spec fn is_sink_cell(c: GameCell) -> bool {
    c == GameCell::Sink || c == GameCell::SinkWithBox
}

/// The terrain is fixed during play: a move never creates or destroys a
/// sink, and a wall stays a wall, at every coordinate.
pub proof fn lemma_move_preserves_terrain(g: GridView, dir: Point, x: int, y: int)
    requires
        g.wf(),
    ensures
        is_sink_cell(g.after_move(dir).cell(x, y)) == is_sink_cell(g.cell(x, y)),
        (g.after_move(dir).cell(x, y) == GameCell::Unmovable) == (g.cell(x, y)
            == GameCell::Unmovable),
{
    if g.move_accepted(dir) {
        let tx = g.player.x + dir.x;
        let ty = g.player.y + dir.y;
        if !g.free_at(tx, ty) {
            let bx = tx + dir.x;
            let by = ty + dir.y;
            lemma_index_in_range(g.width, g.height, tx, ty);
            lemma_index_in_range(g.width, g.height, bx, by);
            lemma_index_injective(g.width, g.height, tx, ty, bx, by);
            if g.in_bounds(x, y) {
                lemma_index_in_range(g.width, g.height, x, y);
                if !(x == tx && y == ty) {
                    lemma_index_injective(g.width, g.height, x, y, tx, ty);
                }
                if !(x == bx && y == by) {
                    lemma_index_injective(g.width, g.height, x, y, bx, by);
                }
            }
        }
    }
}

/// The no-move direction is always rejected and leaves the board as it
/// was.
pub proof fn lemma_no_move_rejected(g: GridView, dir: Point)
    requires
        is_no_move(dir),
    ensures
        !g.move_accepted(dir),
        g.after_move(dir) == g,
{
}

/// A move toward a wall, or off the board (which reads as a wall), is
/// rejected and leaves the board as it was.
pub proof fn lemma_wall_move_rejected(g: GridView, dir: Point)
    requires
        g.cell(g.player.x + dir.x, g.player.y + dir.y) == GameCell::Unmovable,
    ensures
        !g.move_accepted(dir),
        g.after_move(dir) == g,
{
}

/// The push chain rule: a box whose far side holds another box or a wall
/// cannot be pushed; the move is rejected and neither box moves.
pub proof fn lemma_push_chain_rejected(g: GridView, dir: Point)
    requires
        g.box_at(g.player.x + dir.x, g.player.y + dir.y),
        !g.free_at(g.player.x + dir.x + dir.x, g.player.y + dir.y + dir.y),
    ensures
        !g.move_accepted(dir),
        g.after_move(dir) == g,
{
}

/// Text positions of earlier rows lie before the cell just written at
/// column x of row y, so pushing onto the text moves none of them.
proof fn lemma_text_index_order(w: int, y: int, x: int)
    requires
        0 <= x <= w,
        0 <= y,
    ensures
        forall|i: int, j: int|
            0 <= i <= w && 0 <= j < y ==> #[trigger] (j * (w + 1) + i) < y * (w + 1) + x,
{
    assert forall|i: int, j: int| 0 <= i <= w && 0 <= j < y implies #[trigger] (j * (w + 1) + i) < y
        * (w + 1) + x by {
        assert(j * (w + 1) + i < y * (w + 1) + x) by (nonlinear_arith)
            requires
                0 <= i <= w,
                0 <= j < y,
                0 <= x;
    }
}

} // verus!
