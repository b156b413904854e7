//! A self-contained variant of the level state machine that keeps the step
//! counter and the display metadata inside the board state itself.

use vstd::prelude::*;
use crate::game_logic::GameCell;
use crate::game_logic::GridView;
use crate::game_logic::Point;
use crate::game_logic::count_boxes;
use crate::game_logic::is_direction;
use crate::game_logic::is_no_move;
use crate::game_logic::lemma_count_boxes_update;
use crate::game_logic::lemma_index_in_range;
use crate::game_logic::lemma_index_injective;

verus! {

/// The player as input decoding sees it: a position and the direction it
/// asks for next.
pub struct Player {
    pub position: Point,
    pub direction: Point,
}

/// A rectangular board of cells, the player's position, the step counter
/// and display-only metadata, all in one value.
pub struct GameState {
    width: i32,
    height: i32,
    cells: Vec<GameCell>,
    joan: Point,
    steps: i16,
    title: String,
    author: String,
}

/// The mathematical model of the combined state: the grid plus the step
/// counter and the metadata.
#[verifier::ext_equal]
pub ghost struct StateView {
    pub grid: GridView,
    pub steps: int,
    pub title: Seq<char>,
    pub author: Seq<char>,
}

impl View for GameState {
    type V = StateView;

    closed spec fn view(&self) -> StateView {
        StateView {
            grid: GridView {
                width: self.width as int,
                height: self.height as int,
                cells: self.cells@,
                player: self.joan,
            },
            steps: self.steps as int,
            title: self.title@,
            author: self.author@,
        }
    }
}

impl GameState {
    /// A fresh board of the given dimensions, all cells empty, the player
    /// at the origin, no steps taken and empty metadata.
    pub fn new(width: u16, height: u16) -> (r: GameState)
        requires
            1 <= width,
            1 <= height,
            width * height <= u16::MAX,
        ensures
            r@.grid.wf(),
            r@.grid.width == width,
            r@.grid.height == height,
            r@.grid.player == (Point { x: 0, y: 0 }),
            forall|i: int| 0 <= i < r@.grid.cells.len() ==> r@.grid.cells[i] == GameCell::Empty,
            r@.steps == 0,
            r@.title == Seq::<char>::empty(),
            r@.author == Seq::<char>::empty(),
    {
        let n: usize = (width * height) as usize;
        let mut cells: Vec<GameCell> = Vec::new();
        let mut i: usize = 0;
        while i < n
            invariant
                i <= n,
                cells@.len() == i,
                forall|j: int| 0 <= j < i ==> cells@[j] == GameCell::Empty,
            decreases n - i,
        {
            cells.push(GameCell::Empty);
            i += 1;
        }
        GameState {
            width: width as i32,
            height: height as i32,
            cells,
            joan: Point { x: 0, y: 0 },
            steps: 0,
            title: String::new(),
            author: String::new(),
        }
    }

    pub fn width(&self) -> (r: i32)
        ensures
            r == self@.grid.width,
    {
        self.width
    }

    pub fn height(&self) -> (r: i32)
        ensures
            r == self@.grid.height,
    {
        self.height
    }

    pub fn set_title(&mut self, title: &str)
        ensures
            final(self)@ == (StateView { title: title@, ..old(self)@ }),
    {
        self.title = title.to_owned();
    }

    pub fn title(&self) -> (r: &str)
        ensures
            r@ == self@.title,
    {
        &self.title
    }

    pub fn set_author(&mut self, author: &str)
        ensures
            final(self)@ == (StateView { author: author@, ..old(self)@ }),
    {
        self.author = author.to_owned();
    }

    pub fn author(&self) -> (r: &str)
        ensures
            r@ == self@.author,
    {
        &self.author
    }

    /// How many moves have been accepted so far.
    pub fn steps(&self) -> (r: i16)
        ensures
            r == self@.steps,
    {
        self.steps
    }

    pub fn get_player_position(&self) -> (r: Point)
        ensures
            r == self@.grid.player,
    {
        self.joan
    }

    /// Unchecked mutator: keeping the position in bounds is the caller's
    /// responsibility, so it stands in the precondition.
    pub fn set_player_position(&mut self, position: &Point)
        requires
            old(self)@.grid.in_bounds(position.x as int, position.y as int),
        ensures
            final(self)@ == (StateView {
                grid: GridView { player: *position, ..old(self)@.grid },
                ..old(self)@
            }),
            old(self)@.grid.wf() ==> final(self)@.grid.wf(),
    {
        self.joan = *position;
    }

    /// The cell at `position`; any out-of-bounds position reads as
    /// `Unmovable`, the implicit boundary wall.
    pub fn get_cell(&self, position: &Point) -> (r: GameCell)
        requires
            self@.grid.wf(),
        ensures
            r == self@.grid.cell(position.x as int, position.y as int),
    {
        if position.x >= 0 && position.x < self.width && position.y >= 0 && position.y < self.height
        {
            proof {
                lemma_index_in_range(
                    self@.grid.width,
                    self@.grid.height,
                    position.x as int,
                    position.y as int,
                );
            }
            self.cells[(position.y * self.width + position.x) as usize]
        } else {
            GameCell::Unmovable
        }
    }

    /// Writes `cell` at `position` if it is in bounds; a write outside the
    /// board is a silent no-op.
    pub fn set_cell(&mut self, position: &Point, cell: GameCell)
        requires
            old(self)@.grid.wf(),
        ensures
            final(self)@.grid.wf(),
            final(self)@.grid.width == old(self)@.grid.width,
            final(self)@.grid.height == old(self)@.grid.height,
            final(self)@.grid.player == old(self)@.grid.player,
            final(self)@.grid.cells.len() == old(self)@.grid.cells.len(),
            final(self)@.steps == old(self)@.steps,
            final(self)@.title == old(self)@.title,
            final(self)@.author == old(self)@.author,
            old(self)@.grid.in_bounds(position.x as int, position.y as int)
                ==> final(self)@.grid.cells == old(self)@.grid.cells.update(
                position.y as int * old(self)@.grid.width + position.x as int,
                cell,
            ),
            !old(self)@.grid.in_bounds(position.x as int, position.y as int)
                ==> final(self)@.grid.cells == old(self)@.grid.cells,
            forall|i: int, j: int|
                final(self)@.grid.cell(i, j) == if i == position.x as int && j == position.y as int
                    && old(self)@.grid.in_bounds(i, j) {
                    cell
                } else {
                    old(self)@.grid.cell(i, j)
                },
    {
        if position.x >= 0 && position.x < self.width && position.y >= 0 && position.y < self.height
        {
            proof {
                lemma_index_in_range(
                    self@.grid.width,
                    self@.grid.height,
                    position.x as int,
                    position.y as int,
                );
            }
            let idx: usize = (position.y * self.width + position.x) as usize;
            self.cells.set(idx, cell);
            proof {
                assert forall|i: int, j: int|
                    self@.grid.cell(i, j) == if i == position.x as int && j == position.y as int
                        && old(self)@.grid.in_bounds(i, j) {
                        cell
                    } else {
                        old(self)@.grid.cell(i, j)
                    } by {
                    if old(self)@.grid.in_bounds(i, j) && !(i == position.x as int && j
                        == position.y as int) {
                        lemma_index_injective(
                            old(self)@.grid.width,
                            old(self)@.grid.height,
                            i,
                            j,
                            position.x as int,
                            position.y as int,
                        );
                        lemma_index_in_range(old(self)@.grid.width, old(self)@.grid.height, i, j);
                    }
                }
            }
        }
    }

    /// The tile at `pos` is a wall (or lies outside the board, which reads
    /// as a wall).
    pub fn is_blocked_by_a_wall(&self, pos: &Point) -> (r: bool)
        requires
            self@.grid.wf(),
        ensures
            r == (self@.grid.cell(pos.x as int, pos.y as int) == GameCell::Unmovable),
    {
        self.get_cell(pos) == GameCell::Unmovable
    }

    /// The cell at `pos` is unoccupied by wall or box.
    fn free_cell(&self, pos: &Point) -> (r: bool)
        requires
            self@.grid.wf(),
        ensures
            r == self@.grid.free_at(pos.x as int, pos.y as int),
    {
        let cell = self.get_cell(pos);
        cell == GameCell::Empty || cell == GameCell::Sink
    }

    /// The cell at `pos` holds a pushable box.
    fn box_cell(&self, pos: &Point) -> (r: bool)
        requires
            self@.grid.wf(),
        ensures
            r == self@.grid.box_at(pos.x as int, pos.y as int),
    {
        let cell = self.get_cell(pos);
        cell == GameCell::Box || cell == GameCell::SinkWithBox
    }

    /// Moves a box from `old_pos` to `new_pos` if `old_pos` really holds a
    /// box and `new_pos` is free; reports whether it did. A failed attempt
    /// changes nothing.
    fn try_move_box(&mut self, old_pos: &Point, new_pos: &Point) -> (r: bool)
        requires
            old(self)@.grid.wf(),
        ensures
            final(self)@.grid.wf(),
            final(self)@.steps == old(self)@.steps,
            final(self)@.title == old(self)@.title,
            final(self)@.author == old(self)@.author,
            r == (old(self)@.grid.free_at(new_pos.x as int, new_pos.y as int)
                && old(self)@.grid.box_at(old_pos.x as int, old_pos.y as int)),
            r ==> final(self)@.grid == old(self)@.grid.push_box(
                old_pos.x as int,
                old_pos.y as int,
                new_pos.x as int,
                new_pos.y as int,
            ),
            !r ==> final(self)@ == old(self)@,
            count_boxes(final(self)@.grid.cells) == count_boxes(old(self)@.grid.cells),
    {
        if !self.free_cell(new_pos) || !self.box_cell(old_pos) {
            return false;
        }
        let ghost pre = self@.grid;
        let ghost opx = old_pos.x as int;
        let ghost opy = old_pos.y as int;
        let ghost npx = new_pos.x as int;
        let ghost npy = new_pos.y as int;
        let old_cell = self.get_cell(old_pos);
        let new_cell = self.get_cell(new_pos);
        if new_cell == GameCell::Sink {
            self.set_cell(new_pos, GameCell::SinkWithBox);
        } else {
            // GameCell::Empty
            self.set_cell(new_pos, GameCell::Box);
        }
        if old_cell == GameCell::SinkWithBox {
            self.set_cell(old_pos, GameCell::Sink);
        } else {
            // GameCell::Box
            self.set_cell(old_pos, GameCell::Empty);
        }
        proof {
            assert(self@.grid =~= pre.push_box(opx, opy, npx, npy));
            lemma_index_injective(pre.width, pre.height, opx, opy, npx, npy);
            lemma_index_in_range(pre.width, pre.height, opx, opy);
            lemma_index_in_range(pre.width, pre.height, npx, npy);
            let filled = if pre.cell(npx, npy) == GameCell::Sink {
                GameCell::SinkWithBox
            } else {
                GameCell::Box
            };
            let cleared = if pre.cell(opx, opy) == GameCell::SinkWithBox {
                GameCell::Sink
            } else {
                GameCell::Empty
            };
            let mid = pre.cells.update(npy * pre.width + npx, filled);
            lemma_count_boxes_update(pre.cells, npy * pre.width + npx, filled);
            lemma_count_boxes_update(mid, opy * pre.width + opx, cleared);
        }
        return true;
    }

    /// One application of the movement rule; an accepted move also counts
    /// one step. A rejected move changes nothing at all.
    pub fn perform_move(&mut self, direction: &Point) -> (r: bool)
        requires
            old(self)@.grid.wf(),
            is_direction(*direction),
            old(self)@.steps < i16::MAX,
        ensures
            final(self)@.grid.wf(),
            r == old(self)@.grid.move_accepted(*direction),
            final(self)@.grid == old(self)@.grid.after_move(*direction),
            final(self)@.steps == old(self)@.steps + if r {
                1int
            } else {
                0int
            },
            final(self)@.title == old(self)@.title,
            final(self)@.author == old(self)@.author,
            count_boxes(final(self)@.grid.cells) == count_boxes(old(self)@.grid.cells),
            is_no_move(*direction) ==> !r && final(self)@ == old(self)@,
            !r ==> final(self)@ == old(self)@,
    {
        if direction.x == 0 && direction.y == 0 {
            return false;
        }
        let desired_position = direction.plus(self.get_player_position());
        if self.free_cell(&desired_position) {
            self.set_player_position(&desired_position);
            self.steps = self.steps + 1;
            proof {
                assert(self@.grid =~= old(self)@.grid.after_move(*direction));
            }
            return true;
        } else {
            let beyond = desired_position.plus(*direction);
            if !self.try_move_box(&desired_position, &beyond) {
                return false;
            }
            self.set_player_position(&desired_position);
            self.steps = self.steps + 1;
            proof {
                assert(self@.grid =~= old(self)@.grid.after_move(*direction));
            }
            return true;
        }
    }

    /// The win check: true exactly when no cell is in state `Box`, i.e.
    /// every box rests on a sink. Recomputed fresh on every call.
    pub fn all_boxes_on_sinks(&self) -> (r: bool)
        ensures
            r == self@.grid.solved(),
    {
        let mut i: usize = 0;
        while i < self.cells.len()
            invariant
                i <= self.cells@.len(),
                forall|j: int| 0 <= j < i ==> self.cells@[j] != GameCell::Box,
            decreases self.cells@.len() - i,
        {
            if self.cells[i] == GameCell::Box {
                return false;
            }
            i += 1;
        }
        true
    }
}

} // verus!
