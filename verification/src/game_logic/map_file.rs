use crate::game_logic::cell::Cell;
use crate::game_logic::error::MapError;
use crate::game_logic::game::Game;
use crate::game_logic::map_text::parse_text;
use crate::game_logic::pattern::{
    capture_texts, captures, compiles, is_match, regex_captures, regex_compiles, regex_is_match,
};
use vstd::prelude::*;
use vstd::std_specs::iter::IteratorSpec;
use vstd::string::{StrSliceExecFns, StringExecFns};

verus! {

/// What the first line of a map declares: the size of the grid and the
/// characters that stand for a live and for a dead cell.
#[derive(Clone, Copy, PartialEq, Eq, Debug, Structural)]
pub struct Header {
    pub rows: u16,
    pub cols: u16,
    pub alive: char,
    pub dead: char,
}

/// The expression that finds the declaration in the first line: the two
/// dimensions in round brackets, then the two marks, each after one or more
/// spaces.
pub const HEADER_PATTERN: &'static str = "\\((\\d+), (\\d+)\\) +(.) +(.)";

/// The value of a decimal digit.
pub open spec fn digit_value(c: char) -> Option<nat> {
    match c {
        '0' => Some(0),
        '1' => Some(1),
        '2' => Some(2),
        '3' => Some(3),
        '4' => Some(4),
        '5' => Some(5),
        '6' => Some(6),
        '7' => Some(7),
        '8' => Some(8),
        '9' => Some(9),
        _ => None,
    }
}

/// The number that the digits of `text` write in base ten. A character that
/// is no digit counts as zero.
pub open spec fn decimal_value(text: Seq<char>) -> nat
    decreases text.len(),
{
    if text.len() == 0 {
        0
    } else {
        10 * decimal_value(text.drop_last()) + match digit_value(text.last()) {
            Some(d) => d,
            None => 0,
        }
    }
}

/// Every character of `text` is one of the digits `0` to `9`.
pub open spec fn all_digits(text: Seq<char>) -> bool {
    forall|i: int| 0 <= i < text.len() ==> (#[trigger] digit_value(text[i])) is Some
}

/// The dimension that `text` declares: its value where it is one or more
/// decimal digits that write a number of at most sixteen bits.
pub open spec fn dimension_of(text: Seq<char>) -> Option<u16> {
    if text.len() >= 1 && all_digits(text) && decimal_value(text) <= u16::MAX {
        Some(decimal_value(text) as u16)
    } else {
        None
    }
}

/// The value of a number does not shrink when digits are added behind it.
proof fn lemma_value_grows(text: Seq<char>, k: int)
    requires
        0 <= k <= text.len(),
    ensures
        decimal_value(text.take(k)) <= decimal_value(text),
    decreases text.len() - k,
{
    if k == text.len() {
        assert(text.take(k) =~= text);
    } else {
        assert(text.take(k + 1).drop_last() =~= text.take(k));
        lemma_value_grows(text, k + 1);
    }
}

/// The value of the digit `c`, if it is one.
fn digit(c: char) -> (value: Option<u32>)
    ensures
        match value {
            Some(d) => digit_value(c) == Some(d as nat),
            None => digit_value(c) is None,
        },
{
    match c {
        '0' => Some(0),
        '1' => Some(1),
        '2' => Some(2),
        '3' => Some(3),
        '4' => Some(4),
        '5' => Some(5),
        '6' => Some(6),
        '7' => Some(7),
        '8' => Some(8),
        '9' => Some(9),
        _ => None,
    }
}

/// Reads a dimension: one or more decimal digits whose value fits sixteen
/// bits.
pub fn parse_dimension(text: &str) -> (value: Option<u16>)
    ensures
        value == dimension_of(text@),
{
    broadcast use vstd::string::group_string_axioms;

    let mut rest = text.chars();
    let mut total: u32 = 0;
    let mut empty: bool = true;
    let ghost mut k: int = 0;
    loop
        invariant
            0 <= k <= text@.len(),
            empty <==> k == 0,
            rest.remaining() == text@.skip(k),
            all_digits(text@.take(k)),
            total == decimal_value(text@.take(k)),
            total <= u16::MAX,
        decreases text@.len() - k,
    {
        match rest.next() {
            None => {
                assert(text@.skip(k).len() == 0);
                assert(text@.take(k) =~= text@);
                if empty {
                    return None;
                }
                return Some(total as u16);
            },
            Some(c) => {
                assert(c == text@.skip(k)[0]);
                assert(text@.skip(k).drop_first() =~= text@.skip(k + 1));
                assert(text@.take(k + 1).drop_last() =~= text@.take(k));
                assert(text@.take(k + 1).last() == c);
                match digit(c) {
                    None => {
                        assert(digit_value(text@[k]) is None);
                        return None;
                    },
                    Some(d) => {
                        total = total * 10 + d;
                        empty = false;
                        proof {
                            assert forall|i: int| 0 <= i < k + 1 implies (#[trigger] digit_value(
                                text@.take(k + 1)[i],
                            )) is Some by {
                                if i < k {
                                    assert(text@.take(k)[i] == text@.take(k + 1)[i]);
                                }
                            }
                            k = k + 1;
                        }
                        if total > 0xffff {
                            proof {
                                lemma_value_grows(text@, k);
                            }
                            return None;
                        }
                    },
                }
            },
        }
    }
}

/// What the groups found in the first line declare. The line must have
/// matched with its four groups, the dimensions must be numbers of at most
/// sixteen bits, and each mark is the first character of its group.
pub open spec fn header_of(found: Option<Option<Seq<Option<Seq<char>>>>>) -> Result<
    Header,
    MapError,
> {
    match found {
        None => Err(MapError::BadPattern),
        Some(None) => Err(MapError::BadHeader),
        Some(Some(groups)) => {
            if groups.len() != 5 {
                Err(MapError::BadHeader)
            } else {
                match (groups[1], groups[2], groups[3], groups[4]) {
                    (Some(rows), Some(cols), Some(alive), Some(dead)) => {
                        if alive.len() == 0 || dead.len() == 0 {
                            Err(MapError::BadHeader)
                        } else {
                            match (dimension_of(rows), dimension_of(cols)) {
                                (Some(r), Some(c)) => Ok(
                                    Header { rows: r, cols: c, alive: alive[0], dead: dead[0] },
                                ),
                                _ => Err(MapError::BadDimension),
                            }
                        }
                    },
                    _ => Err(MapError::BadHeader),
                }
            }
        },
    }
}

/// Reads the declaration out of what the search in the first line found.
pub fn read_header(found: &Option<Option<Vec<Option<String>>>>) -> (header: Result<
    Header,
    MapError,
>)
    ensures
        header == header_of(capture_texts(found)),
{
    match found {
        None => Err(MapError::BadPattern),
        Some(None) => Err(MapError::BadHeader),
        Some(Some(groups)) => {
            if groups.len() != 5 {
                return Err(MapError::BadHeader);
            }
            match (&groups[1], &groups[2], &groups[3], &groups[4]) {
                (Some(rows), Some(cols), Some(alive), Some(dead)) => {
                    if alive.as_str().is_empty() || dead.as_str().is_empty() {
                        return Err(MapError::BadHeader);
                    }
                    match (parse_dimension(rows.as_str()), parse_dimension(cols.as_str())) {
                        (Some(r), Some(c)) => Ok(
                            Header {
                                rows: r,
                                cols: c,
                                alive: alive.as_str().get_char(0),
                                dead: dead.as_str().get_char(0),
                            },
                        ),
                        _ => Err(MapError::BadDimension),
                    }
                },
                _ => Err(MapError::BadHeader),
            }
        },
    }
}

/// The way a mark is written inside the pattern for the lines: a full stop
/// gets a backslash in front of it, every other character stands as it is.
pub open spec fn escaped(c: char) -> Seq<char> {
    if c == '.' {
        seq!['\\', '.']
    } else {
        seq![c]
    }
}

/// The character that writes a digit.
pub open spec fn digit_char(d: nat) -> char {
    if d == 0 {
        '0'
    } else if d == 1 {
        '1'
    } else if d == 2 {
        '2'
    } else if d == 3 {
        '3'
    } else if d == 4 {
        '4'
    } else if d == 5 {
        '5'
    } else if d == 6 {
        '6'
    } else if d == 7 {
        '7'
    } else if d == 8 {
        '8'
    } else {
        '9'
    }
}

/// The digits that write `n` in base ten, without leading zeros.
pub open spec fn decimal(n: nat) -> Seq<char>
    decreases n,
{
    if n < 10 {
        seq![digit_char(n)]
    } else {
        decimal(n / 10).push(digit_char(n % 10))
    }
}

/// The pattern that a line of the map has to match: a class of the two marks,
/// repeated as often as the grid has columns.
pub open spec fn line_pattern_text(alive: char, dead: char, cols: u16) -> Seq<char> {
    seq!['['] + escaped(alive) + escaped(dead) + seq![']', '{'] + decimal(cols as nat) + seq!['}']
}

/// `String::push` of std: the character is added at the end of the text.
#[verifier::external_body]
fn push_char(text: &mut String, c: char)
    ensures
        final(text)@ == old(text)@.push(c),
{
    text.push(c);
}

/// Adds a mark to a pattern.
fn push_escaped(text: &mut String, c: char)
    ensures
        final(text)@ == old(text)@ + escaped(c),
{
    if c == '.' {
        push_char(text, '\\');
        push_char(text, '.');
        assert(text@ =~= old(text)@ + escaped(c));
    } else {
        push_char(text, c);
        assert(text@ =~= old(text)@ + escaped(c));
    }
}

/// Adds a number in base ten to a pattern.
fn push_decimal(text: &mut String, n: u16)
    ensures
        final(text)@ == old(text)@ + decimal(n as nat),
    decreases n,
{
    if n >= 10 {
        push_decimal(text, n / 10);
    }
    let c: char = match n % 10 {
        0 => '0',
        1 => '1',
        2 => '2',
        3 => '3',
        4 => '4',
        5 => '5',
        6 => '6',
        7 => '7',
        8 => '8',
        _ => '9',
    };
    push_char(text, c);
    assert(text@ =~= old(text)@ + decimal(n as nat));
}

/// Writes the pattern that the lines of a map have to match.
pub fn line_pattern(alive: char, dead: char, cols: u16) -> (pattern: String)
    ensures
        pattern@ == line_pattern_text(alive, dead, cols),
{
    let mut pattern: String = String::new();
    push_char(&mut pattern, '[');
    push_escaped(&mut pattern, alive);
    push_escaped(&mut pattern, dead);
    push_char(&mut pattern, ']');
    push_char(&mut pattern, '{');
    push_decimal(&mut pattern, cols);
    push_char(&mut pattern, '}');
    assert(pattern@ =~= line_pattern_text(alive, dead, cols));
    pattern
}

/// What is wrong with a line of the map, given what the search for the
/// pattern answered and how many characters the line has: the pattern was
/// not accepted, or the line does not hold it, or has not the declared width.
pub open spec fn line_fault(found: Option<bool>, length: nat, cols: u16, index: usize) -> Option<
    MapError,
> {
    match found {
        None => Some(MapError::BadPattern),
        Some(hit) => if hit && length == cols {
            None
        } else {
            Some(MapError::BadLine(index))
        },
    }
}

/// Judges one line of the map by the answer of the search and its length.
pub fn judge_line(found: Option<bool>, length: usize, cols: u16, index: usize) -> (fault: Option<
    MapError,
>)
    ensures
        fault == line_fault(found, length as nat, cols, index),
{
    match found {
        None => Some(MapError::BadPattern),
        Some(hit) => {
            if hit && length == cols as usize {
                None
            } else {
                Some(MapError::BadLine(index))
            }
        },
    }
}

/// The texts of the lines.
pub open spec fn texts(lines: &Vec<String>) -> Seq<Seq<char>> {
    Seq::new(lines@.len(), |i: int| lines@[i]@)
}

/// The fault of the first line, from line `k` on, that is not a row of the
/// map. The header is line zero, so a line is reported by its index less one.
pub open spec fn body_fault(pattern: Seq<char>, cols: u16, lines: Seq<Seq<char>>, k: int) -> Option<
    MapError,
>
    decreases lines.len() - k,
{
    if k < 1 || k >= lines.len() {
        None
    } else {
        match line_fault(
            regex_is_match(pattern, lines[k]),
            lines[k].len(),
            cols,
            (k - 1) as usize,
        ) {
            Some(fault) => Some(fault),
            None => body_fault(pattern, cols, lines, k + 1),
        }
    }
}

/// The lines one after the other, with nothing between them.
pub open spec fn joined(lines: Seq<Seq<char>>) -> Seq<char>
    decreases lines.len(),
{
    if lines.len() == 0 {
        Seq::empty()
    } else {
        joined(lines.drop_last()) + lines.last()
    }
}

/// The meaning of a map given as lines of text. The first line declares the
/// size and the marks. Every line below it has to hold the pattern made of
/// them and to have as many characters as the grid has columns, and there
/// must not be more of them than the grid has rows: the first line beyond
/// the declared rows is at fault. The lines below the header, joined, are
/// then read as the rows of the grid, so that a map with fewer lines than
/// rows is truncated.
pub open spec fn map_of(lines: Seq<Seq<char>>) -> Result<Seq<Seq<Cell>>, MapError> {
    if lines.len() == 0 {
        Err(MapError::MissingHeader)
    } else {
        match header_of(regex_captures(HEADER_PATTERN@, lines[0])) {
            Err(fault) => Err(fault),
            Ok(header) => {
                let pattern = line_pattern_text(header.alive, header.dead, header.cols);
                if !regex_compiles(pattern) {
                    Err(MapError::BadPattern)
                } else {
                    match body_fault(pattern, header.cols, lines, 1) {
                        Some(fault) => Err(fault),
                        None => if lines.len() - 1 > header.rows {
                            Err(MapError::BadLine(header.rows as usize))
                        } else {
                            parse_text(
                                joined(lines.skip(1)),
                                header.alive,
                                header.dead,
                                header.rows as nat,
                                header.cols as nat,
                            )
                        },
                    }
                }
            },
        }
    }
}

impl Game {
    /// Reads a game from the lines of a map: the header first, then the rows
    /// of the grid, exactly as many as the header declares.
    pub fn from_lines(lines: &Vec<String>) -> (game: Result<Game, MapError>)
        ensures
            match map_of(texts(lines)) {
                Ok(grid) => game is Ok && game->Ok_0@ == grid,
                Err(fault) => game is Err && game->Err_0 == fault,
            },
    {
        if lines.len() == 0 {
            return Err(MapError::MissingHeader);
        }
        let found = captures(HEADER_PATTERN, lines[0].as_str());
        let header: Header = match read_header(&found) {
            Ok(header) => header,
            Err(fault) => {
                return Err(fault);
            },
        };
        let pattern: String = line_pattern(header.alive, header.dead, header.cols);
        if !compiles(pattern.as_str()) {
            return Err(MapError::BadPattern);
        }
        let mut src: String = String::new();
        let mut k: usize = 1;
        assert(texts(lines).subrange(1, 1) =~= Seq::<Seq<char>>::empty());
        while k < lines.len()
            invariant
                1 <= k <= lines@.len(),
                header_of(regex_captures(HEADER_PATTERN@, texts(lines)[0])) == Ok::<
                    Header,
                    MapError,
                >(header),
                regex_compiles(pattern@),
                pattern@ == line_pattern_text(header.alive, header.dead, header.cols),
                src@ == joined(texts(lines).subrange(1, k as int)),
                body_fault(pattern@, header.cols, texts(lines), 1) == body_fault(
                    pattern@,
                    header.cols,
                    texts(lines),
                    k as int,
                ),
            decreases lines@.len() - k,
        {
            let line: &str = lines[k].as_str();
            let answer: Option<bool> = is_match(pattern.as_str(), line);
            match judge_line(answer, line.unicode_len(), header.cols, k - 1) {
                Some(fault) => {
                    return Err(fault);
                },
                None => {
                    src.append(line);
                },
            }
            assert(texts(lines).subrange(1, k + 1).drop_last() =~= texts(lines).subrange(
                1,
                k as int,
            ));
            k += 1;
        }
        assert(texts(lines).subrange(1, k as int) =~= texts(lines).skip(1));
        if lines.len() - 1 > header.rows as usize {
            return Err(MapError::BadLine(header.rows as usize));
        }
        Game::from_string(src.as_str(), header.alive, header.dead, (header.rows, header.cols))
    }
}

} // verus!
