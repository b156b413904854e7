use kanjiban::game_logic::Game;
use kanjiban::game_logic::GameCell;
use kanjiban::game_logic::GameState;
use kanjiban::game_logic::Point;

fn pt(x: i32, y: i32) -> Point {
    Point { x, y }
}

/// The 3x1 board of the round-trip scenario: player at (0,0) on floor, a
/// box at (1,0), a sink at (2,0).
fn three_by_one() -> GameState {
    let mut gs = GameState::new(3, 1);
    gs.set_cell(&pt(1, 0), GameCell::Box);
    gs.set_cell(&pt(2, 0), GameCell::Sink);
    gs
}

fn count_box_cells(gs: &GameState) -> usize {
    let mut n = 0;
    for y in 0..gs.height() {
        for x in 0..gs.width() {
            let c = gs.get_cell(&pt(x, y));
            if c == GameCell::Box || c == GameCell::SinkWithBox {
                n += 1;
            }
        }
    }
    n
}

#[test]
fn round_trip_push_onto_sink() {
    let mut game = Game::new(three_by_one(), String::from("t"), String::from("a"));
    assert!(!game.is_game_won());
    assert!(game.try_perform_move(&pt(1, 0)));
    assert_eq!(game.state().get_player_position(), pt(1, 0));
    assert_eq!(game.state().get_cell(&pt(1, 0)), GameCell::Empty);
    assert_eq!(game.state().get_cell(&pt(2, 0)), GameCell::SinkWithBox);
    assert!(game.is_game_won());
    assert_eq!(game.steps(), 1);
}

#[test]
fn move_off_grid_is_rejected() {
    let mut game = Game::new(three_by_one(), String::new(), String::new());
    assert!(!game.try_perform_move(&pt(-1, 0)));
    assert_eq!(game.steps(), 0);
    assert_eq!(game.state().get_player_position(), pt(0, 0));
    assert_eq!(game.state().get_cell(&pt(1, 0)), GameCell::Box);
    assert_eq!(game.state().get_cell(&pt(2, 0)), GameCell::Sink);
}

#[test]
fn push_into_wall_is_rejected() {
    let mut gs = GameState::new(3, 1);
    gs.set_cell(&pt(1, 0), GameCell::Box);
    gs.set_cell(&pt(2, 0), GameCell::Unmovable);
    assert!(!gs.try_perform_move(&pt(1, 0)));
    assert_eq!(gs.get_player_position(), pt(0, 0));
    assert_eq!(gs.get_cell(&pt(1, 0)), GameCell::Box);
    assert_eq!(gs.get_cell(&pt(2, 0)), GameCell::Unmovable);
}

#[test]
fn push_into_box_is_rejected() {
    let mut gs = GameState::new(4, 1);
    gs.set_cell(&pt(1, 0), GameCell::Box);
    gs.set_cell(&pt(2, 0), GameCell::Box);
    assert!(!gs.try_perform_move(&pt(1, 0)));
    assert_eq!(gs.get_player_position(), pt(0, 0));
    assert_eq!(gs.get_cell(&pt(1, 0)), GameCell::Box);
    assert_eq!(gs.get_cell(&pt(2, 0)), GameCell::Box);
    assert_eq!(gs.get_cell(&pt(3, 0)), GameCell::Empty);
}

#[test]
fn push_off_grid_is_rejected() {
    let mut gs = GameState::new(2, 1);
    gs.set_cell(&pt(1, 0), GameCell::Box);
    assert!(!gs.try_perform_move(&pt(1, 0)));
    assert_eq!(gs.get_player_position(), pt(0, 0));
    assert_eq!(gs.get_cell(&pt(1, 0)), GameCell::Box);
}

#[test]
fn no_move_changes_nothing() {
    let mut game = Game::new(three_by_one(), String::new(), String::new());
    assert!(!game.try_perform_move(&pt(0, 0)));
    assert_eq!(game.steps(), 0);
    assert_eq!(game.state().get_player_position(), pt(0, 0));
    assert_eq!(game.state().get_cell(&pt(0, 0)), GameCell::Empty);
    assert_eq!(game.state().get_cell(&pt(1, 0)), GameCell::Box);
    assert_eq!(game.state().get_cell(&pt(2, 0)), GameCell::Sink);
}

#[test]
fn box_count_is_preserved_through_play() {
    let mut gs = GameState::new(4, 2);
    gs.set_cell(&pt(1, 0), GameCell::Box);
    gs.set_cell(&pt(2, 0), GameCell::Sink);
    gs.set_cell(&pt(2, 1), GameCell::SinkWithBox);
    let before = count_box_cells(&gs);
    assert_eq!(before, 2);
    // an accepted push, a rejected move and a plain walk
    assert!(gs.try_perform_move(&pt(1, 0)));
    assert_eq!(count_box_cells(&gs), 2);
    assert!(!gs.try_perform_move(&pt(0, -1)));
    assert_eq!(count_box_cells(&gs), 2);
    assert!(gs.try_perform_move(&pt(0, 1)));
    assert_eq!(count_box_cells(&gs), 2);
}

#[test]
fn solved_iff_no_box_cell() {
    let mut gs = GameState::new(2, 2);
    assert!(gs.all_boxes_on_sinks());
    gs.set_cell(&pt(1, 1), GameCell::Box);
    assert!(!gs.all_boxes_on_sinks());
    gs.set_cell(&pt(1, 1), GameCell::SinkWithBox);
    assert!(gs.all_boxes_on_sinks());
}

#[test]
fn out_of_bounds_reads_as_wall() {
    let gs = GameState::new(3, 2);
    assert_eq!(gs.get_cell(&pt(-1, 0)), GameCell::Unmovable);
    assert_eq!(gs.get_cell(&pt(3, 0)), GameCell::Unmovable);
    assert_eq!(gs.get_cell(&pt(0, -5)), GameCell::Unmovable);
    assert_eq!(gs.get_cell(&pt(0, 2)), GameCell::Unmovable);
    assert_eq!(gs.get_cell(&pt(0, 0)), GameCell::Empty);
}

#[test]
fn out_of_bounds_write_is_ignored() {
    let mut gs = GameState::new(2, 2);
    gs.set_cell(&pt(5, 5), GameCell::Box);
    gs.set_cell(&pt(-1, 0), GameCell::Box);
    for y in 0..2 {
        for x in 0..2 {
            assert_eq!(gs.get_cell(&pt(x, y)), GameCell::Empty);
        }
    }
}

#[test]
fn accessors_and_player_position() {
    let mut gs = GameState::new(5, 4);
    assert_eq!(gs.width(), 5);
    assert_eq!(gs.height(), 4);
    assert_eq!(gs.get_player_position(), pt(0, 0));
    gs.set_player_position(&pt(3, 2));
    assert_eq!(gs.get_player_position(), pt(3, 2));
}

#[test]
fn walking_onto_a_sink_is_allowed() {
    let mut gs = GameState::new(2, 1);
    gs.set_cell(&pt(1, 0), GameCell::Sink);
    assert!(gs.try_perform_move(&pt(1, 0)));
    assert_eq!(gs.get_player_position(), pt(1, 0));
    // the sink cell itself is untouched by the player standing on it
    assert_eq!(gs.get_cell(&pt(1, 0)), GameCell::Sink);
}

#[test]
fn pushing_a_box_off_a_sink() {
    let mut gs = GameState::new(3, 1);
    gs.set_cell(&pt(1, 0), GameCell::SinkWithBox);
    assert!(gs.try_perform_move(&pt(1, 0)));
    assert_eq!(gs.get_cell(&pt(1, 0)), GameCell::Sink);
    assert_eq!(gs.get_cell(&pt(2, 0)), GameCell::Box);
    assert!(!gs.all_boxes_on_sinks());
}

#[test]
fn point_plus_adds_componentwise() {
    let p = pt(2, -3).plus(pt(1, 1));
    assert_eq!(p, pt(3, -2));
}

#[test]
fn game_metadata_is_carried() {
    let game = Game::new(GameState::new(1, 1), String::from("A Level"), String::from("Someone"));
    assert_eq!(game.title(), "A Level");
    assert_eq!(game.author(), "Someone");
    assert_eq!(game.steps(), 0);
}

#[test]
fn board_text_draws_the_grid() {
    let gs = three_by_one();
    let text: Vec<char> = gs.board_text();
    assert_eq!(text, vec!['P', 'b', '.', '\n']);
}

#[test]
fn board_text_overlays_the_player() {
    let mut gs = GameState::new(2, 2);
    gs.set_cell(&pt(1, 0), GameCell::Unmovable);
    gs.set_cell(&pt(0, 1), GameCell::SinkWithBox);
    gs.set_player_position(&pt(1, 1));
    let text: Vec<char> = gs.board_text();
    assert_eq!(text, vec!['_', '#', '\n', 'B', 'P', '\n']);
}
