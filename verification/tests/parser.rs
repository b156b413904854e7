use kanjiban::game_logic::GameCell;
use kanjiban::game_logic::Point;
use kanjiban::level_loader::is_level_line;
use kanjiban::level_loader::parse_level;
use kanjiban::level_loader::split_lines;
use kanjiban::level_loader::try_parse_level;

fn pt(x: i32, y: i32) -> Point {
    Point { x, y }
}

#[test]
fn split_lines_like_str_lines() {
    let split = split_lines("a\nbc\r\n\nd");
    assert_eq!(split, vec!["a", "bc", "", "d"]);
    let trailing = split_lines("a\n");
    assert_eq!(trailing, vec!["a"]);
    let empty = split_lines("");
    assert!(empty.is_empty());
    let lone_cr = split_lines("a\rb");
    assert_eq!(lone_cr, vec!["a\rb"]);
}

#[test]
fn level_line_recognition() {
    assert!(is_level_line("#pPbB._ -.$*+@"));
    assert!(is_level_line(""));
    assert!(!is_level_line("Title: x"));
    assert!(!is_level_line("#:#"));
}

#[test]
fn parse_walled_room() {
    let text = "###\n#p#\n###\nTitle: Foo\nAuthor: Bar\n";
    let game = parse_level(text);
    let gs = game.state();
    assert_eq!(gs.width(), 3);
    assert_eq!(gs.height(), 3);
    assert_eq!(gs.get_player_position(), pt(1, 1));
    for x in 0..3 {
        assert_eq!(gs.get_cell(&pt(x, 0)), GameCell::Unmovable);
        assert_eq!(gs.get_cell(&pt(x, 2)), GameCell::Unmovable);
    }
    assert_eq!(gs.get_cell(&pt(0, 1)), GameCell::Unmovable);
    assert_eq!(gs.get_cell(&pt(1, 1)), GameCell::Empty);
    assert_eq!(gs.get_cell(&pt(2, 1)), GameCell::Unmovable);
    assert_eq!(game.title(), "Foo");
    assert_eq!(game.author(), "Bar");
    assert_eq!(game.steps(), 0);
}

#[test]
fn parse_all_tokens() {
    let text = "#@$*\n.b B\n_-+p\n";
    let game = parse_level(text);
    let gs = game.state();
    assert_eq!(gs.width(), 4);
    assert_eq!(gs.height(), 3);
    assert_eq!(gs.get_cell(&pt(0, 0)), GameCell::Unmovable);
    assert_eq!(gs.get_cell(&pt(1, 0)), GameCell::Empty);
    assert_eq!(gs.get_cell(&pt(2, 0)), GameCell::Box);
    assert_eq!(gs.get_cell(&pt(3, 0)), GameCell::SinkWithBox);
    assert_eq!(gs.get_cell(&pt(0, 1)), GameCell::Sink);
    assert_eq!(gs.get_cell(&pt(1, 1)), GameCell::Box);
    assert_eq!(gs.get_cell(&pt(2, 1)), GameCell::Empty);
    assert_eq!(gs.get_cell(&pt(3, 1)), GameCell::SinkWithBox);
    assert_eq!(gs.get_cell(&pt(0, 2)), GameCell::Empty);
    assert_eq!(gs.get_cell(&pt(1, 2)), GameCell::Empty);
    assert_eq!(gs.get_cell(&pt(2, 2)), GameCell::Sink);
    assert_eq!(gs.get_cell(&pt(3, 2)), GameCell::Empty);
    // 'P' and '+' leave the player on a sink; 'p' and '@' on plain floor
    assert_eq!(gs.get_player_position(), pt(3, 2));
}

#[test]
fn parse_player_on_sink() {
    let text = "P#\nb.\n";
    let game = parse_level(text);
    let gs = game.state();
    assert_eq!(gs.get_player_position(), pt(0, 0));
    assert_eq!(gs.get_cell(&pt(0, 0)), GameCell::Sink);
    assert_eq!(gs.get_cell(&pt(1, 0)), GameCell::Unmovable);
    assert_eq!(gs.get_cell(&pt(0, 1)), GameCell::Box);
    assert_eq!(gs.get_cell(&pt(1, 1)), GameCell::Sink);
}

#[test]
fn parse_width_is_longest_line() {
    let text = "##\n####\n#\n";
    let game = parse_level(text);
    assert_eq!(game.state().width(), 4);
    assert_eq!(game.state().height(), 3);
    // short lines leave the remaining cells empty
    assert_eq!(game.state().get_cell(&pt(2, 0)), GameCell::Empty);
    assert_eq!(game.state().get_cell(&pt(3, 2)), GameCell::Empty);
}

#[test]
fn parse_skips_empty_lines() {
    let text = "##\n\n#b\n\nTitle: T\n";
    let game = parse_level(text);
    assert_eq!(game.state().height(), 2);
    assert_eq!(game.state().get_cell(&pt(1, 1)), GameCell::Box);
    assert_eq!(game.title(), "T");
    assert_eq!(game.author(), "");
}

#[test]
fn parse_crlf_level() {
    let text = "#p\r\n#b\r\nTitle: Win\r\n";
    let game = parse_level(text);
    assert_eq!(game.state().width(), 2);
    assert_eq!(game.state().height(), 2);
    assert_eq!(game.state().get_player_position(), pt(1, 0));
    assert_eq!(game.state().get_cell(&pt(1, 1)), GameCell::Box);
    assert_eq!(game.title(), "Win");
}

#[test]
fn parse_last_metadata_wins() {
    let text = "#p\nTitle: One\nTitle: Two\nAuthor: X\n";
    let game = parse_level(text);
    assert_eq!(game.title(), "Two");
    assert_eq!(game.author(), "X");
}

#[test]
fn parsed_level_plays() {
    let text = "p$.\nTitle: Mini\n";
    let mut game = parse_level(text);
    assert!(!game.is_game_won());
    assert!(game.try_perform_move(&pt(1, 0)));
    assert!(game.is_game_won());
    assert_eq!(game.steps(), 1);
    assert_eq!(game.state().get_cell(&pt(2, 0)), GameCell::SinkWithBox);
}

#[test]
fn unparsable_texts_are_refused() {
    assert!(try_parse_level("").is_none());
    assert!(try_parse_level("Title: only\n").is_none());
    assert!(try_parse_level("\n\n").is_none());
    let game = try_parse_level("#p\n").expect("a one-row level parses");
    assert_eq!(game.state().width(), 2);
    assert_eq!(game.state().height(), 1);
}
