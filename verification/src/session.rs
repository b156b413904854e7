//! The play-session state machine around one level: it coalesces the
//! directions sampled between ticks (last one wins), applies at most one
//! move per tick, and holds the `Playing`/`Solved` distinction — once a
//! level is solved no further move is accepted until a fresh level is
//! loaded. The surrounding loop owns the clock and decides when a tick is
//! due.

use vstd::prelude::*;
use crate::game_logic::Game;
use crate::game_logic::GameView;
use crate::game_logic::Point;
use crate::game_logic::count_boxes;
use crate::game_logic::is_direction;
use crate::game_logic::is_no_move;

verus! {

/// One level in play, between loading and the next level switch.
pub struct Session {
    game: Game,
    pending_direction: Point,
    solved: bool,
}

/// The mathematical model of a session.
#[verifier::ext_equal]
pub ghost struct SessionView {
    pub game: GameView,
    pub pending_direction: Point,
    pub solved: bool,
}

impl View for Session {
    type V = SessionView;

    closed spec fn view(&self) -> SessionView {
        SessionView {
            game: self.game@,
            pending_direction: self.pending_direction,
            solved: self.solved,
        }
    }
}

impl Session {
    /// The session is playable: its board is well formed and whatever
    /// direction is pending is one of the five direction values.
    pub open spec fn wf(self) -> bool {
        self@.game.state.wf() && is_direction(self@.pending_direction)
    }

    /// A fresh session around a loaded level, with no direction pending
    /// and play open.
    pub fn new(game: Game) -> (r: Session)
        ensures
            r@.game == game@,
            is_no_move(r@.pending_direction),
            !r@.solved,
            game@.state.wf() ==> r.wf(),
    {
        Session { game, pending_direction: Point { x: 0, y: 0 }, solved: false }
    }

    pub fn game(&self) -> (r: &Game)
        ensures
            r@ == self@.game,
    {
        &self.game
    }

    /// The session has seen the level solved; play is closed until a new
    /// level replaces this session.
    pub fn is_solved(&self) -> (r: bool)
        ensures
            r == self@.solved,
    {
        self.solved
    }

    /// Notes the direction sampled this frame. Real directions overwrite
    /// whatever was pending (the last request before a tick wins); the
    /// no-move sentinel leaves the pending request alone.
    pub fn request_direction(&mut self, direction: Point)
        requires
            is_direction(direction),
        ensures
            final(self)@.pending_direction == if is_no_move(direction) {
                old(self)@.pending_direction
            } else {
                direction
            },
            final(self)@.game == old(self)@.game,
            final(self)@.solved == old(self)@.solved,
            old(self).wf() ==> final(self).wf(),
    {
        if direction.x != 0 || direction.y != 0 {
            self.pending_direction = direction;
        }
    }

    /// One tick: applies the pending direction as a move, unless the level
    /// is already solved, and clears the pending direction either way. An
    /// accepted move counts a step, and a move that leaves every box on a
    /// sink closes the session. Reports whether a move was accepted.
    pub fn tick(&mut self) -> (r: bool)
        requires
            old(self).wf(),
            old(self)@.game.steps < i16::MAX,
        ensures
            final(self).wf(),
            is_no_move(final(self)@.pending_direction),
            old(self)@.solved ==> !r && final(self)@.game == old(self)@.game && final(self)@.solved,
            !old(self)@.solved ==> {
                &&& r == old(self)@.game.state.move_accepted(old(self)@.pending_direction)
                &&& final(self)@.game.state == old(self)@.game.state.after_move(
                    old(self)@.pending_direction,
                )
                &&& final(self)@.game.steps == old(self)@.game.steps + if r {
                    1int
                } else {
                    0int
                }
                &&& final(self)@.game.title == old(self)@.game.title
                &&& final(self)@.game.author == old(self)@.game.author
                &&& final(self)@.solved == (r && final(self)@.game.state.solved())
            },
            count_boxes(final(self)@.game.state.cells) == count_boxes(old(self)@.game.state.cells),
    {
        if self.solved {
            self.pending_direction = Point { x: 0, y: 0 };
            return false;
        }
        let direction = self.pending_direction;
        self.pending_direction = Point { x: 0, y: 0 };
        if self.game.try_perform_move(&direction) {
            if self.game.is_game_won() {
                self.solved = true;
            }
            return true;
        }
        false
    }
}

} // verus!
