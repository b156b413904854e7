//! A coordinate-list variant of the level state machine: walls, boxes and
//! sinks are kept as lists of board coordinates instead of a dense grid.

use vstd::prelude::*;
use vstd::seq_lib::lemma_seq_contains_after_push;

verus! {

/// Board coordinates and direction vectors in this variant: plain pairs.
pub type Point = (i16, i16);

/// The board side the renderer assumes.
pub const SQUARES: i16 = 16;

/// The player: a position and the direction it asks for next.
pub struct Player {
    pub position: Point,
    pub dir: Point,
}

/// A level as three coordinate lists: walls, pushable boxes and sinks.
pub struct Level {
    pub unmovable_blocks: Vec<Point>,
    pub movable_blocks: Vec<Point>,
    pub sinks: Vec<Point>,
}

/// The wall cells of the built-in level: a walled room with a few inner
/// blocks.
pub open spec fn level0_wall(p: Point) -> bool {
    ||| ((p.0 == 4 || p.0 == 12) && 0 <= p.1 < 5)
    ||| (4 <= p.0 < 13 && (p.1 == 0 || p.1 == 5))
    ||| ((4 <= p.0 < 7 || 9 <= p.0 < 12) && p.1 == 1)
    ||| (p.0 == 9 && (p.1 == 3 || p.1 == 4))
    ||| (p.0 == 6 && p.1 == 3)
}

/// The box cells of the built-in level.
pub open spec fn level0_boxes() -> Seq<Point> {
    seq![(10i16, 2i16), (10i16, 3i16)]
}

/// The sink cells of the built-in level.
pub open spec fn level0_sinks() -> Seq<Point> {
    seq![(8i16, 4i16), (6i16, 4i16)]
}

/// One step from `p` in direction `d`, in this variant's coordinates.
pub open spec fn step_from(p: Point, d: Point) -> Point {
    (((p.0 + d.0) as i16), ((p.1 + d.1) as i16))
}

/// Where each box stands after the box at `from` is pushed to `to`: every
/// entry equal to `from` moves there, every other entry stays.
pub open spec fn boxes_after_push(boxes: Seq<Point>, from: Point, to: Point) -> Seq<Point> {
    boxes.map_values(|b: Point| if b == from { to } else { b })
}

/// The built-in level, ready to play.
pub fn new_level() -> (level: Level)
    ensures
        forall|p: Point| #[trigger] level.unmovable_blocks@.contains(p) <==> level0_wall(p),
        level.movable_blocks@ == level0_boxes(),
        level.sinks@ == level0_sinks(),
{
    let mut level = Level {
        unmovable_blocks: Vec::new(),
        movable_blocks: Vec::new(),
        sinks: Vec::new(),
    };
    build_level0(&mut level.unmovable_blocks, &mut level.movable_blocks, &mut level.sinks);
    proof {
        assert(level.movable_blocks@ =~= level0_boxes());
        assert(level.sinks@ =~= level0_sinks());
    }
    return level;
}

/// Fills the three lists with the built-in level's walls, boxes and
/// sinks.
fn build_level0(
    unmovable_blocks: &mut Vec<Point>,
    movable_blocks: &mut Vec<Point>,
    sinks: &mut Vec<Point>,
)
    ensures
        forall|p: Point| #[trigger]
            final(unmovable_blocks)@.contains(p) <==> (old(unmovable_blocks)@.contains(p)
                || level0_wall(p)),
        final(movable_blocks)@ == old(movable_blocks)@ + level0_boxes(),
        final(sinks)@ == old(sinks)@ + level0_sinks(),
{
    broadcast use lemma_seq_contains_after_push;
    // place none movable blocks
    let mut i: i16 = 0;
    while i < 5
        invariant
            0 <= i <= 5,
            forall|p: Point| #[trigger]
                unmovable_blocks@.contains(p) <==> (old(unmovable_blocks)@.contains(p) || ((p.0
                    == 4 || p.0 == 12) && 0 <= p.1 < i)),
            movable_blocks@ == old(movable_blocks)@,
            sinks@ == old(sinks)@,
        decreases 5 - i,
    {
        let ghost pre = unmovable_blocks@;
        unmovable_blocks.push((4, i));
        let ghost mid = unmovable_blocks@;
        unmovable_blocks.push((12, i));
        proof {
            assert forall|p: Point| #[trigger]
                unmovable_blocks@.contains(p) <==> (pre.contains(p) || p == (4i16, i) || p == (
                12i16,
                i,
            )) by {
                lemma_seq_contains_after_push(pre, (4i16, i), p);
                lemma_seq_contains_after_push(mid, (12i16, i), p);
            }
        }
        i += 1;
    }
    let mut i: i16 = 4;
    while i < 13
        invariant
            4 <= i <= 13,
            forall|p: Point| #[trigger]
                unmovable_blocks@.contains(p) <==> (old(unmovable_blocks)@.contains(p) || ((p.0
                    == 4 || p.0 == 12) && 0 <= p.1 < 5) || (4 <= p.0 < i && (p.1 == 0 || p.1
                    == 5))),
            movable_blocks@ == old(movable_blocks)@,
            sinks@ == old(sinks)@,
        decreases 13 - i,
    {
        let ghost pre = unmovable_blocks@;
        unmovable_blocks.push((i, 0));
        let ghost mid = unmovable_blocks@;
        unmovable_blocks.push((i, 5));
        proof {
            assert forall|p: Point| #[trigger]
                unmovable_blocks@.contains(p) <==> (pre.contains(p) || p == (i, 0i16) || p == (
                i,
                5i16,
            )) by {
                lemma_seq_contains_after_push(pre, (i, 0i16), p);
                lemma_seq_contains_after_push(mid, (i, 5i16), p);
            }
        }
        i += 1;
    }
    let mut i: i16 = 4;
    while i < 7
        invariant
            4 <= i <= 7,
            forall|p: Point| #[trigger]
                unmovable_blocks@.contains(p) <==> (old(unmovable_blocks)@.contains(p) || ((p.0
                    == 4 || p.0 == 12) && 0 <= p.1 < 5) || (4 <= p.0 < 13 && (p.1 == 0 || p.1
                    == 5)) || (4 <= p.0 < i && p.1 == 1)),
            movable_blocks@ == old(movable_blocks)@,
            sinks@ == old(sinks)@,
        decreases 7 - i,
    {
        let ghost pre = unmovable_blocks@;
        unmovable_blocks.push((i, 1));
        proof {
            assert forall|p: Point| #[trigger]
                unmovable_blocks@.contains(p) <==> (pre.contains(p) || p == (i, 1i16)) by {
                lemma_seq_contains_after_push(pre, (i, 1i16), p);
            }
        }
        i += 1;
    }
    let mut i: i16 = 9;
    while i < 12
        invariant
            9 <= i <= 12,
            forall|p: Point| #[trigger]
                unmovable_blocks@.contains(p) <==> (old(unmovable_blocks)@.contains(p) || ((p.0
                    == 4 || p.0 == 12) && 0 <= p.1 < 5) || (4 <= p.0 < 13 && (p.1 == 0 || p.1
                    == 5)) || ((4 <= p.0 < 7 || 9 <= p.0 < i) && p.1 == 1)),
            movable_blocks@ == old(movable_blocks)@,
            sinks@ == old(sinks)@,
        decreases 12 - i,
    {
        let ghost pre = unmovable_blocks@;
        unmovable_blocks.push((i, 1));
        proof {
            assert forall|p: Point| #[trigger]
                unmovable_blocks@.contains(p) <==> (pre.contains(p) || p == (i, 1i16)) by {
                lemma_seq_contains_after_push(pre, (i, 1i16), p);
            }
        }
        i += 1;
    }
    // add some none-movable blocks in the middle
    unmovable_blocks.push((9, 3));
    unmovable_blocks.push((9, 4));
    unmovable_blocks.push((6, 3));

    // add movable boxes
    movable_blocks.push((10, 2));
    movable_blocks.push((10, 3));

    // add sinks
    sinks.push((8, 4));
    sinks.push((6, 4));
    proof {
        assert(movable_blocks@ =~= old(movable_blocks)@ + level0_boxes());
        assert(sinks@ =~= old(sinks)@ + level0_sinks());
    }
}

/// The wall list holds `next_position`: the tile the player would enter is
/// blocked.
pub fn is_blocked_by_a_wall(level: &Level, next_position: &Point) -> (r: bool)
    ensures
        r == level.unmovable_blocks@.contains(*next_position),
{
    let mut i: usize = 0;
    while i < level.unmovable_blocks.len()
        invariant
            i <= level.unmovable_blocks@.len(),
            forall|k: int| 0 <= k < i ==> level.unmovable_blocks@[k] != *next_position,
        decreases level.unmovable_blocks@.len() - i,
    {
        let b = level.unmovable_blocks[i];
        if b.0 == next_position.0 && b.1 == next_position.1 {
            // the tile is blocked
            return true;
        }
        i += 1;
    }
    return false;
}

/// The list holds `p`.
fn contains_point(list: &Vec<Point>, p: &Point) -> (r: bool)
    ensures
        r == list@.contains(*p),
{
    let mut i: usize = 0;
    while i < list.len()
        invariant
            i <= list@.len(),
            forall|k: int| 0 <= k < i ==> list@[k] != *p,
        decreases list@.len() - i,
    {
        let b = list[i];
        if b.0 == p.0 && b.1 == p.1 {
            return true;
        }
        i += 1;
    }
    return false;
}

/// No wall (or box, depending on the list passed) stands at
/// `next_block_position`, so a box may be moved there.
fn is_block_movable(unmovable_blocks: &Vec<Point>, next_block_position: Point) -> (r: bool)
    ensures
        r == !unmovable_blocks@.contains(next_block_position),
{
    let mut i: usize = 0;
    while i < unmovable_blocks.len()
        invariant
            i <= unmovable_blocks@.len(),
            forall|k: int| 0 <= k < i ==> unmovable_blocks@[k] != next_block_position,
        decreases unmovable_blocks@.len() - i,
    {
        let b = unmovable_blocks[i];
        if b.0 == next_block_position.0 && b.1 == next_block_position.1 {
            // cannot move the block
            return false;
        }
        i += 1;
    }
    return true;
}

/// Whether a box on `next_position` blocks the player: if the box can
/// move one tile further it is pushed there and the way is free; if the
/// tile beyond holds a wall or another box, the way stays blocked. A tile
/// without a box never blocks.
pub fn box_is_blocked(level: &mut Level, andi: &Player, next_position: &Point) -> (r: bool)
    requires
        i16::MIN <= next_position.0 + andi.dir.0 <= i16::MAX,
        i16::MIN <= next_position.1 + andi.dir.1 <= i16::MAX,
    ensures
        final(level).unmovable_blocks@ == old(level).unmovable_blocks@,
        final(level).sinks@ == old(level).sinks@,
        r == (old(level).movable_blocks@.contains(*next_position) && (old(level).unmovable_blocks@.contains(step_from(*next_position, andi.dir)) || old(level).movable_blocks@.contains(step_from(*next_position, andi.dir)))),
        r || !old(level).movable_blocks@.contains(*next_position) ==> final(level).movable_blocks@ == old(level).movable_blocks@,
        !r && old(level).movable_blocks@.contains(*next_position) ==> final(level).movable_blocks@ == boxes_after_push(
            old(level).movable_blocks@,
            *next_position,
            step_from(*next_position, andi.dir),
        ),
{
    if contains_point(&level.movable_blocks, next_position) {
        let next_block_position: Point = (next_position.0 + andi.dir.0, next_position.1
            + andi.dir.1);
        if is_block_movable(&level.unmovable_blocks, next_block_position) && is_block_movable(
            &level.movable_blocks,
            next_block_position,
        ) {
            let mut i: usize = 0;
            while i < level.movable_blocks.len()
                invariant
                    i <= level.movable_blocks@.len(),
                    level.movable_blocks@.len() == old(level).movable_blocks@.len(),
                    level.unmovable_blocks@ == old(level).unmovable_blocks@,
                    level.sinks@ == old(level).sinks@,
                    i16::MIN <= next_position.0 + andi.dir.0 <= i16::MAX,
                    i16::MIN <= next_position.1 + andi.dir.1 <= i16::MAX,
                    forall|k: int|
                        0 <= k < i ==> level.movable_blocks@[k] == (
                        if old(level).movable_blocks@[k] == *next_position {
                            step_from(*next_position, andi.dir)
                        } else {
                            old(level).movable_blocks@[k]
                        }),
                    forall|k: int|
                        i <= k < level.movable_blocks@.len() ==> level.movable_blocks@[k] == old(level).movable_blocks@[k],
                decreases level.movable_blocks@.len() - i,
            {
                let b = level.movable_blocks[i];
                if b.0 == next_position.0 && b.1 == next_position.1 {
                    let next_block_position: Point = (b.0 + andi.dir.0, b.1 + andi.dir.1);
                    // move the box
                    level.movable_blocks.set(i, next_block_position);
                }
                i += 1;
            }
            proof {
                assert(level.movable_blocks@ =~= boxes_after_push(
                    old(level).movable_blocks@,
                    *next_position,
                    step_from(*next_position, andi.dir),
                ));
            }
        } else {
            return true;
        }
    }
    return false;
}

/// Every sink is covered by some box: this variant's win check asks that
/// each sink coordinate occurs in the box list.
pub fn all_boxes_on_sinks(movable_blocks: &Vec<Point>, sinks: &Vec<Point>) -> (r: bool)
    ensures
        r == (forall|k: int|
            0 <= k < sinks@.len() ==> movable_blocks@.contains(#[trigger] sinks@[k])),
{
    let mut i: usize = 0;
    while i < sinks.len()
        invariant
            i <= sinks@.len(),
            forall|k: int| 0 <= k < i ==> movable_blocks@.contains(#[trigger] sinks@[k]),
        decreases sinks@.len() - i,
    {
        let s = sinks[i];
        let mut sink_found = false;
        let mut j: usize = 0;
        while j < movable_blocks.len()
            invariant
                j <= movable_blocks@.len(),
                s == sinks@[i as int],
                i < sinks@.len(),
                sink_found == (exists|k: int| 0 <= k < j && movable_blocks@[k] == s),
            decreases movable_blocks@.len() - j,
        {
            let b = movable_blocks[j];
            if b.0 == s.0 && b.1 == s.1 {
                sink_found = true;
            }
            j += 1;
        }
        if !sink_found {
            assert(!movable_blocks@.contains(sinks@[i as int]));
            return false;
        }
        i += 1;
    }
    return true;
}

/// One tick of this variant's movement rule, as the play loop applies it:
/// the player advances onto the tile its direction points at, pushing a
/// box standing there one tile further; a wall, a blocked box or a
/// standstill direction leaves the player in place. Reports whether the
/// player moved.
pub fn try_step(level: &mut Level, andi: &mut Player) -> (moved: bool)
    requires
        i16::MIN <= old(andi).position.0 + old(andi).dir.0 <= i16::MAX,
        i16::MIN <= old(andi).position.1 + old(andi).dir.1 <= i16::MAX,
        i16::MIN <= old(andi).position.0 + old(andi).dir.0 + old(andi).dir.0 <= i16::MAX,
        i16::MIN <= old(andi).position.1 + old(andi).dir.1 + old(andi).dir.1 <= i16::MAX,
    ensures
        final(andi).dir == old(andi).dir,
        final(level).unmovable_blocks@ == old(level).unmovable_blocks@,
        final(level).sinks@ == old(level).sinks@,
        moved == ({
            let np = step_from(old(andi).position, old(andi).dir);
            &&& !old(level).unmovable_blocks@.contains(np)
            &&& !(old(level).movable_blocks@.contains(np) && (old(level).unmovable_blocks@.contains(step_from(np, old(andi).dir)) || old(level).movable_blocks@.contains(step_from(np, old(andi).dir))))
            &&& np != old(andi).position
        }),
        final(andi).position == if moved {
            step_from(old(andi).position, old(andi).dir)
        } else {
            old(andi).position
        },
        ({
            let np = step_from(old(andi).position, old(andi).dir);
            if old(level).movable_blocks@.contains(np) && !old(level).unmovable_blocks@.contains(step_from(np, old(andi).dir)) && !old(level).movable_blocks@.contains(step_from(np, old(andi).dir)) {
                final(level).movable_blocks@ == boxes_after_push(
                    old(level).movable_blocks@,
                    np,
                    step_from(np, old(andi).dir),
                )
            } else {
                final(level).movable_blocks@ == old(level).movable_blocks@
            }
        }),
{
    // player likes to move on this tile:
    let next_position: Point = (andi.position.0 + andi.dir.0, andi.position.1 + andi.dir.1);
    let mut player_can_move = !is_blocked_by_a_wall(level, &next_position);
    let watcher = Player { position: andi.position, dir: andi.dir };
    if box_is_blocked(level, &watcher, &next_position) {
        player_can_move = false;
    }
    if player_can_move && (next_position.0 != andi.position.0 || next_position.1
        != andi.position.1) {
        andi.position = next_position;
        return true;
    }
    return false;
}

} // verus!
