use kanjiban::board::Level;
use kanjiban::board::Player;
use kanjiban::board::all_boxes_on_sinks;
use kanjiban::board::box_is_blocked;
use kanjiban::board::is_blocked_by_a_wall;
use kanjiban::board::new_level;
use kanjiban::board::try_step;

#[test]
fn built_in_level_contents() {
    let level = new_level();
    assert_eq!(level.movable_blocks, vec![(10, 2), (10, 3)]);
    assert_eq!(level.sinks, vec![(8, 4), (6, 4)]);
    // corners and inner blocks of the walled room
    for wall in [(4, 0), (12, 0), (4, 4), (12, 4), (5, 0), (5, 5), (9, 3), (9, 4), (6, 3), (6, 1),
        (10, 1)] {
        assert!(level.unmovable_blocks.contains(&wall), "missing wall {wall:?}");
    }
    for open in [(5, 2), (8, 4), (10, 2), (7, 1), (8, 1), (13, 3), (3, 3)] {
        assert!(!level.unmovable_blocks.contains(&open), "unexpected wall {open:?}");
    }
}

#[test]
fn wall_lookup() {
    let level = new_level();
    assert!(is_blocked_by_a_wall(&level, &(4, 0)));
    assert!(is_blocked_by_a_wall(&level, &(9, 4)));
    assert!(!is_blocked_by_a_wall(&level, &(5, 2)));
    assert!(!is_blocked_by_a_wall(&level, &(10, 2)));
}

#[test]
fn free_box_is_pushed() {
    let mut level = new_level();
    let andi = Player { position: (10, 1), dir: (0, 1) };
    // the box at (10,2) can move to (10,3)? no: (10,3) holds the other box
    assert!(box_is_blocked(&mut level, &andi, &(10, 2)));
    assert_eq!(level.movable_blocks, vec![(10, 2), (10, 3)]);
    // the box at (10,3) can move down to the free (10,4)
    let andi = Player { position: (10, 2), dir: (0, 1) };
    assert!(!box_is_blocked(&mut level, &andi, &(10, 3)));
    assert_eq!(level.movable_blocks, vec![(10, 2), (10, 4)]);
}

#[test]
fn box_against_wall_stays() {
    let mut level = new_level();
    // pushing the box at (10,3) to the right hits nothing at (11,3): free
    // pushing the box at (10,2) up hits the wall at (10,1)
    let andi = Player { position: (10, 3), dir: (0, -1) };
    assert!(box_is_blocked(&mut level, &andi, &(10, 2)));
    assert_eq!(level.movable_blocks, vec![(10, 2), (10, 3)]);
}

#[test]
fn no_box_never_blocks() {
    let mut level = new_level();
    let andi = Player { position: (5, 2), dir: (1, 0) };
    assert!(!box_is_blocked(&mut level, &andi, &(6, 2)));
    assert_eq!(level.movable_blocks, vec![(10, 2), (10, 3)]);
}

#[test]
fn every_sink_needs_a_box() {
    let level = new_level();
    assert!(!all_boxes_on_sinks(&level.movable_blocks, &level.sinks));
    let covered = vec![(8, 4), (6, 4)];
    assert!(all_boxes_on_sinks(&covered, &level.sinks));
    let half = vec![(8, 4), (9, 9)];
    assert!(!all_boxes_on_sinks(&half, &level.sinks));
    let empty_sinks: Vec<(i16, i16)> = Vec::new();
    assert!(all_boxes_on_sinks(&level.movable_blocks, &empty_sinks));
}

#[test]
fn step_walks_and_pushes() {
    let mut level = new_level();
    let mut andi = Player { position: (10, 4), dir: (0, -1) };
    // walking up would push the box at (10,3) into the box at (10,2): blocked
    assert!(!try_step(&mut level, &mut andi));
    assert_eq!(andi.position, (10, 4));
    // walk right onto the free tile (11,4)
    andi.dir = (1, 0);
    assert!(try_step(&mut level, &mut andi));
    assert_eq!(andi.position, (11, 4));
    // another step right hits the wall at (12,4)
    assert!(!try_step(&mut level, &mut andi));
    assert_eq!(andi.position, (11, 4));
}

#[test]
fn step_with_no_direction_stays() {
    let mut level = new_level();
    let mut andi = Player { position: (10, 4), dir: (0, 0) };
    assert!(!try_step(&mut level, &mut andi));
    assert_eq!(andi.position, (10, 4));
    assert_eq!(level.movable_blocks, vec![(10, 2), (10, 3)]);
}

#[test]
fn step_pushes_single_box() {
    let mut level = Level {
        unmovable_blocks: vec![(0, 0)],
        movable_blocks: vec![(2, 1)],
        sinks: vec![(3, 1)],
    };
    let mut andi = Player { position: (1, 1), dir: (1, 0) };
    assert!(try_step(&mut level, &mut andi));
    assert_eq!(andi.position, (2, 1));
    assert_eq!(level.movable_blocks, vec![(3, 1)]);
    assert!(all_boxes_on_sinks(&level.movable_blocks, &level.sinks));
}
