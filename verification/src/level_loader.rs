//! The level-text parser: a board drawn with ASCII tokens (wall, box,
//! sink, player, box-on-sink, floor), followed by optional `Key: value`
//! metadata lines, becomes a ready `Game`. Reading the file is the
//! caller's business; the parser works on the text alone.

use vstd::prelude::*;
use crate::game_logic::Game;
use crate::game_logic::GameCell;
use crate::game_logic::GameState;
use crate::game_logic::GridView;
use crate::game_logic::Point;

verus! {

/// The index of the first newline in `s`, or -1 if there is none.
pub open spec fn first_nl(s: Seq<char>) -> int
    decreases s.len(),
{
    if s.len() == 0 {
        -1
    } else if s[0] == '\n' {
        0
    } else if first_nl(s.skip(1)) < 0 {
        -1
    } else {
        1 + first_nl(s.skip(1))
    }
}

/// A line with a trailing carriage return (the tail of a `\r\n` ending)
/// stripped.
pub open spec fn strip_cr(l: Seq<char>) -> Seq<char> {
    if l.len() > 0 && l.last() == '\r' {
        l.drop_last()
    } else {
        l
    }
}

/// The lines of `s`, split at `\n` with `\r\n` endings recognised, and no
/// trailing empty line: what `str::lines` yields.
pub open spec fn spec_lines(s: Seq<char>) -> Seq<Seq<char>>
    decreases s.len(),
{
    if s.len() == 0 {
        Seq::empty()
    } else {
        let i = first_nl(s);
        if i < 0 || i >= s.len() {
            seq![s]
        } else {
            seq![strip_cr(s.take(i))] + spec_lines(s.skip(i + 1))
        }
    }
}

/// What `first_nl` finds really is the first newline.
proof fn lemma_first_nl_props(s: Seq<char>)
    ensures
        first_nl(s) < 0 ==> forall|j: int| 0 <= j < s.len() ==> s[j] != '\n',
        first_nl(s) >= 0 ==> {
            &&& first_nl(s) < s.len()
            &&& s[first_nl(s)] == '\n'
            &&& forall|j: int| 0 <= j < first_nl(s) ==> s[j] != '\n'
        },
    decreases s.len(),
{
    if s.len() == 0 {
    } else if s[0] == '\n' {
    } else {
        lemma_first_nl_props(s.skip(1));
        let r = first_nl(s.skip(1));
        if r < 0 {
            assert forall|j: int| 0 <= j < s.len() implies s[j] != '\n' by {
                if j > 0 {
                    assert(s[j] == s.skip(1)[j - 1]);
                }
            }
        } else {
            assert(s[1 + r] == s.skip(1)[r]);
            assert forall|j: int| 0 <= j < 1 + r implies s[j] != '\n' by {
                if j > 0 {
                    assert(s[j] == s.skip(1)[j - 1]);
                }
            }
        }
    }
}

/// A newline-free prefix before a `\n` yields one line, then the rest.
proof fn lemma_lines_step(u: Seq<char>, rest: Seq<char>)
    requires
        forall|j: int| 0 <= j < u.len() ==> u[j] != '\n',
    ensures
        spec_lines(u + seq!['\n'] + rest) == seq![strip_cr(u)] + spec_lines(rest),
{
    let s = u + seq!['\n'] + rest;
    assert(s.len() > 0);
    lemma_first_nl_props(s);
    assert(s[u.len() as int] == '\n');
    if first_nl(s) < 0 {
        assert(false);
    }
    let i = first_nl(s);
    assert(i <= u.len()) by {
        if i > u.len() {
            assert(s[u.len() as int] != '\n');
        }
    }
    assert(i >= u.len()) by {
        if i < u.len() {
            assert(s[i] == u[i]);
        }
    }
    assert(s.take(i) =~= u);
    assert(s.skip(i + 1) =~= rest);
}

/// A newline-free text is one line (or none, if it is empty).
proof fn lemma_lines_flat(u: Seq<char>)
    requires
        forall|j: int| 0 <= j < u.len() ==> u[j] != '\n',
    ensures
        u.len() == 0 ==> spec_lines(u) == Seq::<Seq<char>>::empty(),
        u.len() > 0 ==> spec_lines(u) == seq![u],
{
    lemma_first_nl_props(u);
    if u.len() > 0 {
        if first_nl(u) >= 0 {
            assert(u[first_nl(u)] == '\n');
        }
    }
}

/// Splits `s` into its lines, as `str::lines` does: split at `\n`, strip
/// a `\r` that precedes a `\n`, and drop nothing else.
pub fn split_lines(s: &str) -> (lines: Vec<String>)
    ensures
        lines@.map_values(|l: String| l@) == spec_lines(s@),
{
    let n = s.unicode_len();
    let mut lines: Vec<String> = Vec::new();
    let mut start: usize = 0;
    let mut i: usize = 0;
    proof {
        assert(lines@.map_values(|l: String| l@) =~= Seq::<Seq<char>>::empty());
        assert(s@.skip(0) =~= s@);
    }
    while i < n
        invariant
            n == s@.len(),
            0 <= start <= i <= n,
            forall|j: int| start <= j < i ==> s@[j] != '\n',
            spec_lines(s@) == lines@.map_values(|l: String| l@) + spec_lines(s@.skip(start as int)),
        decreases n - i,
    {
        if s.get_char(i) == '\n' {
            let mut end = i;
            if end > start && s.get_char(end - 1) == '\r' {
                end = end - 1;
            }
            let piece = s.substring_char(start, end).to_owned();
            proof {
                let u = s@.skip(start as int).take((i - start) as int);
                assert(u =~= s@.subrange(start as int, i as int));
                assert(s@.skip(start as int) =~= u + seq!['\n'] + s@.skip(i as int + 1));
                lemma_lines_step(u, s@.skip(i as int + 1));
                assert(piece@ =~= strip_cr(u));
                assert((lines@.push(piece)).map_values(|l: String| l@) =~= lines@.map_values(
                    |l: String| l@,
                ).push(piece@));
            }
            let ghost rest = s@.skip(i as int + 1);
            let ghost prev = lines@.map_values(|l: String| l@);
            lines.push(piece);
            start = i + 1;
            proof {
                assert(lines@.map_values(|l: String| l@) =~= prev.push(piece@));
                assert(prev + (seq![piece@] + spec_lines(rest)) =~= prev.push(piece@) + spec_lines(
                    rest,
                ));
            }
        }
        i += 1;
    }
    if start < n {
        let piece = s.substring_char(start, n).to_owned();
        proof {
            let u = s@.skip(start as int);
            lemma_lines_flat(u);
            assert(piece@ =~= u);
            assert((lines@.push(piece)).map_values(|l: String| l@) =~= lines@.map_values(
                |l: String| l@,
            ).push(piece@));
        }
        let ghost prev = lines@.map_values(|l: String| l@);
        lines.push(piece);
        proof {
            assert(lines@.map_values(|l: String| l@) =~= prev.push(piece@));
            assert(prev + seq![piece@] =~= prev.push(piece@));
        }
    } else {
        proof {
            lemma_lines_flat(s@.skip(start as int));
            assert(lines@.map_values(|l: String| l@) + Seq::<Seq<char>>::empty() =~= lines@.map_values(
                |l: String| l@,
            ));
        }
    }
    lines
}

/// The characters that may draw a board: wall, player, player-on-sink,
/// box, box-on-sink, sink, and the floor fillers.
pub open spec fn is_board_char(c: char) -> bool {
    ||| c == '#'
    ||| c == 'p'
    ||| c == 'P'
    ||| c == 'b'
    ||| c == 'B'
    ||| c == '.'
    ||| c == '_'
    ||| c == ' '
    ||| c == '-'
    ||| c == '$'
    ||| c == '*'
    ||| c == '+'
    ||| c == '@'
}

/// Only board-drawing characters occur in the line.
pub open spec fn is_level_line_spec(l: Seq<char>) -> bool {
    forall|j: int| 0 <= j < l.len() ==> is_board_char(l[j])
}

/// The line holds a colon, which marks the first metadata line for the
/// dimension peek.
pub open spec fn contains_colon(l: Seq<char>) -> bool {
    exists|j: int| 0 <= j < l.len() && l[j] == ':'
}

/// The board's height as the dimension peek finds it: the number of
/// nonempty lines before the first line holding a colon.
pub open spec fn peek_height(lines: Seq<Seq<char>>) -> int
    decreases lines.len(),
{
    if lines.len() == 0 {
        0
    } else if lines[0].len() == 0 {
        peek_height(lines.skip(1))
    } else if contains_colon(lines[0]) {
        0
    } else {
        1 + peek_height(lines.skip(1))
    }
}

/// The board's width as the dimension peek finds it: the length of the
/// longest line among those `peek_height` counts.
pub open spec fn peek_width(lines: Seq<Seq<char>>) -> int
    decreases lines.len(),
{
    if lines.len() == 0 {
        0
    } else if lines[0].len() == 0 {
        peek_width(lines.skip(1))
    } else if contains_colon(lines[0]) {
        0
    } else if lines[0].len() >= peek_width(lines.skip(1)) {
        lines[0].len() as int
    } else {
        peek_width(lines.skip(1))
    }
}

/// How many of the first `k` lines are nonempty.
pub open spec fn nonempty_count(lines: Seq<Seq<char>>, k: int) -> int
    decreases lines.len(),
{
    if k <= 0 || lines.len() == 0 {
        0
    } else {
        (if lines[0].len() > 0 {
            1int
        } else {
            0int
        }) + nonempty_count(lines.skip(1), k - 1)
    }
}

/// Only board-drawing characters stand in a level line, and a colon is
/// not one of them.
proof fn lemma_level_line_no_colon(l: Seq<char>)
    requires
        is_level_line_spec(l),
    ensures
        !contains_colon(l),
{
    assert forall|j: int| 0 <= j < l.len() implies l[j] != ':' by {
        assert(is_board_char(l[j]));
    }
}

/// Counting one more line extends the nonempty count by that line's
/// contribution.
proof fn lemma_nonempty_count_step(lines: Seq<Seq<char>>, k: int)
    requires
        0 <= k < lines.len(),
    ensures
        nonempty_count(lines, k + 1) == nonempty_count(lines, k) + (if lines[k].len() > 0 {
            1int
        } else {
            0int
        }),
    decreases lines.len(),
{
    if k == 0 {
        assert(nonempty_count(lines, 0) == 0);
        assert(nonempty_count(lines.skip(1), 0) == 0);
    } else {
        lemma_nonempty_count_step(lines.skip(1), k - 1);
        assert(lines.skip(1)[k - 1] == lines[k]);
    }
}

/// As long as no line before position `k` holds a colon, every nonempty
/// line up to and including `k` is counted by the dimension peek, so the
/// peeked height and width cover line `k`.
proof fn lemma_peek_covers(lines: Seq<Seq<char>>, k: int)
    requires
        0 <= k < lines.len(),
        forall|j: int| 0 <= j <= k ==> lines[j].len() == 0 || !contains_colon(#[trigger] lines[j]),
    ensures
        peek_height(lines) >= nonempty_count(lines, k) + (if lines[k].len() > 0 {
            1int
        } else {
            0int
        }),
        lines[k].len() <= peek_width(lines),
        nonempty_count(lines, k) >= 0,
        peek_width(lines) >= 0,
        peek_height(lines) >= 0,
    decreases lines.len(),
{
    if k == 0 {
        lemma_peek_nonneg(lines.skip(1));
    } else {
        lemma_peek_covers(lines.skip(1), k - 1);
        assert(lines.skip(1)[k - 1] == lines[k]);
        assert(forall|j: int|
            0 <= j <= k - 1 ==> lines.skip(1)[j].len() == 0 || !contains_colon(
                #[trigger] lines.skip(1)[j],
            ));
    }
}

/// The peeked dimensions are never negative.
proof fn lemma_peek_nonneg(lines: Seq<Seq<char>>)
    ensures
        peek_height(lines) >= 0,
        peek_width(lines) >= 0,
    decreases lines.len(),
{
    if lines.len() > 0 {
        lemma_peek_nonneg(lines.skip(1));
    }
}

/// Only board-drawing characters occur in `line`, so it can describe a
/// row of the board.
pub fn is_level_line(line: &str) -> (r: bool)
    ensures
        r == is_level_line_spec(line@),
{
    let n = line.unicode_len();
    let mut i: usize = 0;
    while i < n
        invariant
            n == line@.len(),
            i <= n,
            forall|j: int| 0 <= j < i ==> is_board_char(line@[j]),
        decreases n - i,
    {
        let c = line.get_char(i);
        let ok = c == '#' || c == 'p' || c == 'P' || c == 'b' || c == 'B' || c == '.' || c == '_'
            || c == ' ' || c == '-' || c == '$' || c == '*' || c == '+' || c == '@';
        if !ok {
            return false;
        }
        i += 1;
    }
    true
}

/// The line holds a colon.
fn line_contains_colon(line: &str) -> (r: bool)
    ensures
        r == contains_colon(line@),
{
    let n = line.unicode_len();
    let mut i: usize = 0;
    while i < n
        invariant
            n == line@.len(),
            i <= n,
            forall|j: int| 0 <= j < i ==> line@[j] != ':',
        decreases n - i,
    {
        if line.get_char(i) == ':' {
            return true;
        }
        i += 1;
    }
    false
}

/// `line` starts with `prefix`, character for character.
fn starts_with_prefix(line: &str, prefix: &str) -> (r: bool)
    ensures
        r == has_prefix(line@, prefix@),
{
    let n = prefix.unicode_len();
    if line.unicode_len() < n {
        return false;
    }
    let mut i: usize = 0;
    while i < n
        invariant
            n == prefix@.len(),
            line@.len() >= n,
            i <= n,
            forall|j: int| 0 <= j < i ==> line@[j] == prefix@[j],
        decreases n - i,
    {
        if line.get_char(i) != prefix.get_char(i) {
            proof {
                assert(line@.subrange(0, n as int)[i as int] != prefix@[i as int]);
            }
            return false;
        }
        i += 1;
    }
    proof {
        assert(line@.subrange(0, n as int) =~= prefix@);
    }
    true
}

/// An all-empty board of the peeked dimensions, the player at the
/// origin: what the parser starts from.
pub open spec fn empty_grid(w: int, h: int) -> GridView {
    GridView {
        width: w,
        height: h,
        cells: Seq::new((w * h) as nat, |i: int| GameCell::Empty),
        player: Point { x: 0, y: 0 },
    }
}

/// A cell write as the parser performs it: in bounds it lands in the cell
/// sequence, outside the board it is dropped.
pub open spec fn put_cell(g: GridView, x: int, y: int, c: GameCell) -> GridView {
    if g.in_bounds(x, y) {
        GridView { cells: g.cells.update(y * g.width + x, c), ..g }
    } else {
        g
    }
}

/// A player placement as the parser performs it.
pub open spec fn put_player(g: GridView, x: int, y: int) -> GridView {
    GridView { player: Point { x: x as i32, y: y as i32 }, ..g }
}

/// The effect of one board character at column x of row y: `#` a wall,
/// `p`/`@` the player, `P`/`+` the player on a sink, `b`/`$` a box,
/// `B`/`*` a box on a sink, `.` a sink, anything else floor.
pub open spec fn apply_token(g: GridView, x: int, y: int, c: char) -> GridView {
    if c == '#' {
        put_cell(g, x, y, GameCell::Unmovable)
    } else if c == 'p' || c == '@' {
        put_player(g, x, y)
    } else if c == 'P' || c == '+' {
        put_cell(put_player(g, x, y), x, y, GameCell::Sink)
    } else if c == 'b' || c == '$' {
        put_cell(g, x, y, GameCell::Box)
    } else if c == 'B' || c == '*' {
        put_cell(g, x, y, GameCell::SinkWithBox)
    } else if c == '.' {
        put_cell(g, x, y, GameCell::Sink)
    } else {
        g
    }
}

/// The first `upto` characters of line `l`, applied to row y in order.
pub open spec fn apply_line(g: GridView, y: int, l: Seq<char>, upto: int) -> GridView
    decreases upto,
{
    if upto <= 0 {
        g
    } else {
        apply_token(apply_line(g, y, l, upto - 1), upto - 1, y, l[upto - 1])
    }
}

/// The board region of the text applied to `g`: nonempty level lines are
/// drawn as rows (empty lines are skipped without taking a row), and the
/// first nonempty line that is not a level line ends the board.
pub open spec fn apply_board(g: GridView, lines: Seq<Seq<char>>, y: int) -> GridView
    decreases lines.len(),
{
    if lines.len() == 0 {
        g
    } else if lines[0].len() == 0 {
        apply_board(g, lines.skip(1), y)
    } else if !is_level_line_spec(lines[0]) {
        g
    } else {
        apply_board(apply_line(g, y, lines[0], lines[0].len() as int), lines.skip(1), y + 1)
    }
}

/// How many leading lines belong to the board region: empty lines and
/// level lines, up to the first nonempty line that is neither.
pub open spec fn board_end(lines: Seq<Seq<char>>) -> int
    decreases lines.len(),
{
    if lines.len() == 0 {
        0
    } else if lines[0].len() == 0 || is_level_line_spec(lines[0]) {
        1 + board_end(lines.skip(1))
    } else {
        0
    }
}

/// `l` starts with `p`, character for character.
pub open spec fn has_prefix(l: Seq<char>, p: Seq<char>) -> bool {
    l.len() >= p.len() && l.subrange(0, p.len() as int) == p
}

pub open spec fn title_prefix() -> Seq<char> {
    seq!['T', 'i', 't', 'l', 'e', ':', ' ']
}

pub open spec fn author_prefix() -> Seq<char> {
    seq!['A', 'u', 't', 'h', 'o', 'r', ':', ' ']
}

/// The metadata scan over the lines after the board region: each line
/// starting with the title prefix resets the title to what follows it,
/// each line starting with the author prefix resets the author, and the
/// last match of each wins.
pub open spec fn scan_meta(lines: Seq<Seq<char>>, t: Seq<char>, a: Seq<char>) -> (Seq<char>, Seq<
    char,
>)
    decreases lines.len(),
{
    if lines.len() == 0 {
        (t, a)
    } else if has_prefix(lines[0], title_prefix()) {
        scan_meta(lines.skip(1), lines[0].skip(title_prefix().len() as int), a)
    } else if has_prefix(lines[0], author_prefix()) {
        scan_meta(lines.skip(1), t, lines[0].skip(author_prefix().len() as int))
    } else {
        scan_meta(lines.skip(1), t, a)
    }
}

/// The board that parsing the whole text yields.
pub open spec fn parsed_grid(s: Seq<char>) -> GridView {
    apply_board(
        empty_grid(peek_width(spec_lines(s)), peek_height(spec_lines(s))),
        spec_lines(s),
        0,
    )
}

/// The title that parsing the whole text yields.
pub open spec fn parsed_title(s: Seq<char>) -> Seq<char> {
    scan_meta(spec_lines(s).skip(board_end(spec_lines(s))), Seq::empty(), Seq::empty()).0
}

/// The author that parsing the whole text yields.
pub open spec fn parsed_author(s: Seq<char>) -> Seq<char> {
    scan_meta(spec_lines(s).skip(board_end(spec_lines(s))), Seq::empty(), Seq::empty()).1
}

/// The dimension peek over the split lines: the width and height the
/// parser will size the board with.
fn peek_dimensions(lines: &Vec<String>) -> (dims: (usize, usize))
    ensures
        dims.0 as int == peek_width(lines@.map_values(|l: String| l@)),
        dims.1 as int == peek_height(lines@.map_values(|l: String| l@)),
{
    let ghost ls = lines@.map_values(|l: String| l@);
    let mut width: usize = 0;
    let mut height: usize = 0;
    let mut li: usize = 0;
    proof {
        assert(ls.skip(0) =~= ls);
        lemma_peek_nonneg(ls);
    }
    while li < lines.len()
        invariant_except_break
            lines@.map_values(|l: String| l@) == ls,
            li <= lines@.len(),
            0 <= height <= li,
            peek_height(ls) == height + peek_height(ls.skip(li as int)),
            peek_width(ls) == (if width as int >= peek_width(ls.skip(li as int)) {
                width as int
            } else {
                peek_width(ls.skip(li as int))
            }),
        ensures
            height as int == peek_height(ls),
            width as int == peek_width(ls),
        decreases lines@.len() - li,
    {
        let line = lines[li].as_str();
        let ghost rest = ls.skip(li as int);
        proof {
            assert(rest[0] == ls[li as int]);
            assert(rest.skip(1) =~= ls.skip(li as int + 1));
        }
        if line.is_empty() {
            li += 1;
            continue ;
        }
        if line_contains_colon(line) {
            proof {
                assert(peek_height(rest) == 0);
                assert(peek_width(rest) == 0);
                lemma_peek_nonneg(rest);
            }
            break ;
        }
        height += 1;
        let len = line.unicode_len();
        if len > width {
            width = len;
        }
        li += 1;
    }
    proof {
        if li as int == ls.len() {
            assert(ls.skip(li as int) =~= Seq::<Seq<char>>::empty());
        }
    }
    (width, height)
}

/// The two phases of the parse: reading board rows, then metadata.
enum ParseState {
    Start,
    ReadGameBoard,
}

/// Parses a level text into a ready `Game`: the board region drawn with
/// level-line characters becomes the grid and the player position, the
/// lines after it are scanned for `Title: ` and `Author: ` metadata, and
/// the step counter starts at zero. The dimensions come from a first
/// peek: the height counts the nonempty lines before the first line
/// holding a colon, the width is the longest of them.
pub fn parse_level(contents: &str) -> (game: Game)
    requires
        contents@.len() > 0,
        0 < peek_height(spec_lines(contents@)) <= u16::MAX,
        0 < peek_width(spec_lines(contents@)) <= u16::MAX,
        peek_width(spec_lines(contents@)) * peek_height(spec_lines(contents@)) <= u16::MAX,
    ensures
        game@.steps == 0,
        game@.state.wf(),
        game@.state == parsed_grid(contents@),
        game@.title == parsed_title(contents@),
        game@.author == parsed_author(contents@),
{
    let lines = split_lines(contents);
    let ghost ls = spec_lines(contents@);
    // peek to get the dimensions of the game board
    let dims = peek_dimensions(&lines);
    let width = dims.0;
    let height = dims.1;
    proof {
        assert(ls.skip(0) =~= ls);
    }
    let ghost pw = peek_width(ls);
    let ghost ph = peek_height(ls);
    let mut game_state = GameState::new(width as u16, height as u16);
    proof {
        assert(game_state@ =~= empty_grid(pw, ph));
    }
    let mut current_line_idx: usize = 0;
    let mut parse_state = ParseState::Start;
    let mut y_pos: i32 = 0;
    let mut x_pos: i32 = 0;
    let mut title = String::new();
    let mut author = String::new();
    // actually parse the lines of the game board and
    // the additional info
    while current_line_idx < lines.len()
        invariant
            lines@.map_values(|l: String| l@) == ls,
            current_line_idx <= lines@.len(),
            game_state@.wf(),
            game_state@.width == pw,
            game_state@.height == ph,
            pw == peek_width(ls),
            ph == peek_height(ls),
            0 < pw <= u16::MAX,
            0 < ph <= u16::MAX,
            x_pos == 0,
            match parse_state {
                ParseState::Start => {
                    &&& forall|j: int|
                        0 <= j < current_line_idx ==> (#[trigger] ls[j]).len() == 0
                            || is_level_line_spec(ls[j])
                    &&& y_pos as int == nonempty_count(ls, current_line_idx as int)
                    &&& 0 <= y_pos
                    &&& apply_board(empty_grid(pw, ph), ls, 0) == apply_board(
                        game_state@,
                        ls.skip(current_line_idx as int),
                        y_pos as int,
                    )
                    &&& board_end(ls) == current_line_idx + board_end(
                        ls.skip(current_line_idx as int),
                    )
                    &&& title@ == Seq::<char>::empty()
                    &&& author@ == Seq::<char>::empty()
                },
                ParseState::ReadGameBoard => {
                    &&& apply_board(empty_grid(pw, ph), ls, 0) == game_state@
                    &&& scan_meta(ls.skip(board_end(ls)), Seq::empty(), Seq::empty()) == scan_meta(
                        ls.skip(current_line_idx as int),
                        title@,
                        author@,
                    )
                },
            },
        decreases
                lines@.len() - current_line_idx,
                (match parse_state {
                    ParseState::Start => 1int,
                    ParseState::ReadGameBoard => 0int,
                }),
    {
        let line = lines[current_line_idx].as_str();
        let ghost rest = ls.skip(current_line_idx as int);
        proof {
            assert(ls[current_line_idx as int] == lines@[current_line_idx as int]@);
            assert(rest[0] == ls[current_line_idx as int]);
            assert(rest.skip(1) =~= ls.skip(current_line_idx as int + 1));
        }
        if line.is_empty() {
            proof {
                match parse_state {
                    ParseState::Start => {
                        lemma_nonempty_count_step(ls, current_line_idx as int);
                    },
                    ParseState::ReadGameBoard => {
                        assert(!has_prefix(rest[0], title_prefix()));
                        assert(!has_prefix(rest[0], author_prefix()));
                    },
                }
            }
            current_line_idx += 1;
            continue ;
        }
        match parse_state {
            ParseState::Start => {
                if !is_level_line(line) {
                    proof {
                        assert(apply_board(game_state@, rest, y_pos as int) == game_state@);
                        assert(board_end(rest) == 0);
                        assert(ls.skip(board_end(ls)) =~= rest);
                    }
                    parse_state = ParseState::ReadGameBoard;
                    continue ;  // no increase of current_line_idx
                }
                proof {
                    assert forall|j: int| 0 <= j <= current_line_idx implies (#[trigger] ls[j]).len()
                        == 0 || !contains_colon(ls[j]) by {
                        if ls[j].len() > 0 {
                            lemma_level_line_no_colon(ls[j]);
                        }
                    }
                    lemma_peek_covers(ls, current_line_idx as int);
                    assert(y_pos < ph);
                    assert(line@.len() <= pw);
                }
                let ghost entry = game_state@;
                let n = line.unicode_len();
                let mut x: usize = 0;
                while x < n
                    invariant
                        n == line@.len(),
                        0 <= x <= n,
                        x_pos as int == x,
                        0 <= y_pos,
                        y_pos < ph,
                        line@.len() <= pw,
                        game_state@.wf(),
                        game_state@.width == pw,
                        game_state@.height == ph,
                        0 < pw <= u16::MAX,
                        0 < ph <= u16::MAX,
                        game_state@ == apply_line(entry, y_pos as int, line@, x as int),
                    decreases n - x,
                {
                    let c = line.get_char(x);
                    let pos = Point { x: x_pos, y: y_pos };
                    let ghost before = game_state@;
                    match c {
                        '#' => game_state.set_cell(&pos, GameCell::Unmovable),
                        'p' | '@' => game_state.set_player_position(&pos),
                        'P' | '+' => {
                            game_state.set_player_position(&pos);
                            game_state.set_cell(&pos, GameCell::Sink);
                        },
                        'b' | '$' => {
                            game_state.set_cell(&pos, GameCell::Box);
                        },
                        'B' | '*' => {
                            game_state.set_cell(&pos, GameCell::SinkWithBox);
                        },
                        '.' => {
                            game_state.set_cell(&pos, GameCell::Sink);
                        },
                        _ => {},  // floor
                    }
                    proof {
                        assert(game_state@ =~= apply_token(before, x as int, y_pos as int, c));
                    }
                    x_pos = x_pos + 1;
                    x += 1;
                }
                proof {
                    lemma_nonempty_count_step(ls, current_line_idx as int);
                }
                y_pos += 1;
                x_pos = 0;
            },
            ParseState::ReadGameBoard => {
                let title_prefix_str = "Title: ";
                let author_prefix_str = "Author: ";
                proof {
                    reveal_strlit("Title: ");
                    reveal_strlit("Author: ");
                    assert(title_prefix_str@ =~= title_prefix());
                    assert(author_prefix_str@ =~= author_prefix());
                }
                if starts_with_prefix(line, title_prefix_str) {
                    title = line.substring_char(7, line.unicode_len()).to_owned();
                    proof {
                        assert(title@ =~= rest[0].skip(title_prefix().len() as int));
                    }
                } else if starts_with_prefix(line, author_prefix_str) {
                    author = line.substring_char(8, line.unicode_len()).to_owned();
                    proof {
                        assert(author@ =~= rest[0].skip(author_prefix().len() as int));
                    }
                }
            },
        }
        current_line_idx += 1;
    }
    proof {
        assert(ls.skip(lines@.len() as int) =~= Seq::<Seq<char>>::empty());
        match parse_state {
            ParseState::Start => {
                assert(board_end(ls) == ls.len());
                assert(ls.skip(board_end(ls)) =~= Seq::<Seq<char>>::empty());
            },
            ParseState::ReadGameBoard => {},
        }
    }
    Game::new(game_state, title, author)
}

/// Whether the text passes the parser's construction-time checks: it is
/// nonempty and the peeked board dimensions are positive and fit the
/// grid's limits.
pub open spec fn parsable(s: Seq<char>) -> bool {
    &&& s.len() > 0
    &&& 0 < peek_height(spec_lines(s)) <= u16::MAX
    &&& 0 < peek_width(spec_lines(s)) <= u16::MAX
    &&& peek_width(spec_lines(s)) * peek_height(spec_lines(s)) <= u16::MAX
}

/// Parses a level text after checking it: malformed board geometry (an
/// empty board, or one too large for the grid) yields `None` instead of
/// being a caller's obligation.
pub fn try_parse_level(contents: &str) -> (r: Option<Game>)
    ensures
        r is Some <==> parsable(contents@),
        match r {
            Some(game) => {
                &&& game@.steps == 0
                &&& game@.state.wf()
                &&& game@.state == parsed_grid(contents@)
                &&& game@.title == parsed_title(contents@)
                &&& game@.author == parsed_author(contents@)
            },
            None => true,
        },
{
    if contents.is_empty() {
        return None;
    }
    let lines = split_lines(contents);
    let dims = peek_dimensions(&lines);
    let width = dims.0;
    let height = dims.1;
    if width == 0 || height == 0 {
        return None;
    }
    if width > 65535 || height > 65535 {
        return None;
    }
    proof {
        assert(width as int * height as int <= 65535 * 65535) by (nonlinear_arith)
            requires
                0 <= width as int <= 65535,
                0 <= height as int <= 65535;
    }
    if width * height > 65535 {
        return None;
    }
    Some(parse_level(contents))
}

} // verus!
