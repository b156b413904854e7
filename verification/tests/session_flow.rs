use kanjiban::game_logic::Game;
use kanjiban::game_logic::GameCell;
use kanjiban::game_logic::GameState;
use kanjiban::game_logic::Point;
use kanjiban::session::Session;

fn pt(x: i32, y: i32) -> Point {
    Point { x, y }
}

/// Player on (0,0), a box at (1,0), a sink at (2,0): solvable in one
/// push.
fn one_push_game() -> Game {
    let mut gs = GameState::new(3, 1);
    gs.set_cell(&pt(1, 0), GameCell::Box);
    gs.set_cell(&pt(2, 0), GameCell::Sink);
    Game::new(gs, String::new(), String::new())
}

#[test]
fn tick_applies_the_pending_direction_once() {
    let mut session = Session::new(one_push_game());
    session.request_direction(pt(1, 0));
    assert!(session.tick());
    assert_eq!(session.game().steps(), 1);
    assert_eq!(session.game().state().get_player_position(), pt(1, 0));
    // the pending direction was consumed: the next tick moves nothing
    assert!(!session.tick());
    assert_eq!(session.game().steps(), 1);
}

#[test]
fn later_request_overrides_earlier_one() {
    let mut session = Session::new(one_push_game());
    session.request_direction(pt(-1, 0));
    session.request_direction(pt(1, 0));
    assert!(session.tick());
    assert_eq!(session.game().state().get_player_position(), pt(1, 0));
}

#[test]
fn no_move_request_keeps_the_pending_one() {
    let mut session = Session::new(one_push_game());
    session.request_direction(pt(1, 0));
    session.request_direction(pt(0, 0));
    assert!(session.tick());
    assert_eq!(session.game().state().get_player_position(), pt(1, 0));
}

#[test]
fn tick_without_request_is_rejected() {
    let mut session = Session::new(one_push_game());
    assert!(!session.tick());
    assert_eq!(session.game().steps(), 0);
    assert_eq!(session.game().state().get_player_position(), pt(0, 0));
}

#[test]
fn solving_closes_the_session() {
    let mut session = Session::new(one_push_game());
    assert!(!session.is_solved());
    session.request_direction(pt(1, 0));
    assert!(session.tick());
    assert!(session.is_solved());
    // solved is terminal: further requests move nothing
    session.request_direction(pt(-1, 0));
    assert!(!session.tick());
    assert_eq!(session.game().steps(), 1);
    assert_eq!(session.game().state().get_player_position(), pt(1, 0));
    assert_eq!(session.game().state().get_cell(&pt(2, 0)), GameCell::SinkWithBox);
}

#[test]
fn rejected_move_counts_no_step() {
    let mut session = Session::new(one_push_game());
    session.request_direction(pt(0, -1));
    assert!(!session.tick());
    assert_eq!(session.game().steps(), 0);
    assert!(!session.is_solved());
}
