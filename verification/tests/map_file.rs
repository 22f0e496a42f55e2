use game_of_life::game_logic::cell::Cell;
use game_of_life::game_logic::error::MapError;
use game_of_life::game_logic::game::Game;
use game_of_life::game_logic::map_file::{
    judge_line, line_pattern, parse_dimension, read_header, Header,
};

const A: Cell = Cell::Alive;
const D: Cell = Cell::Dead;

fn lines(text: &[&str]) -> Vec<String> {
    text.iter().map(|line| line.to_string()).collect()
}

fn groups(text: &[&str]) -> Option<Option<Vec<Option<String>>>> {
    Some(Some(text.iter().map(|group| Some(group.to_string())).collect()))
}

#[test]
fn map_is_read_from_its_lines() {
    let game = match Game::from_lines(&lines(&["(2, 3) # .", "#.#", ".#."])) {
        Ok(game) => game,
        Err(_) => panic!("the lines are a map"),
    };
    assert_eq!(game.state(), &vec![vec![A, D, A], vec![D, A, D]]);
    assert_eq!((game.rows(), game.cols()), (2, 3));
}

#[test]
fn map_may_use_any_two_marks() {
    let game = match Game::from_lines(&lines(&["(3, 2)   o   -", "o-", "--", "oo"])) {
        Ok(game) => game,
        Err(_) => panic!("the lines are a map"),
    };
    assert_eq!(game.state(), &vec![vec![A, D], vec![D, D], vec![A, A]]);
}

#[test]
fn map_lines_beyond_the_declared_rows_are_refused() {
    assert_eq!(
        Game::from_lines(&lines(&["(1, 2) # .", "#.", ".."])).err(),
        Some(MapError::BadLine(1))
    );
    assert_eq!(
        Game::from_lines(&lines(&["(1, 2) # .", "#.", "..x"])).err(),
        Some(MapError::BadLine(1))
    );
    assert_eq!(
        Game::from_lines(&lines(&["(2, 1) # .", "#", ".", "#", "."])).err(),
        Some(MapError::BadLine(2))
    );
    assert_eq!(
        Game::from_lines(&lines(&["(1, 2) ^ #", "^^", "ab"])).err(),
        Some(MapError::BadLine(1))
    );
    assert_eq!(
        Game::from_lines(&lines(&["(0, 2) # .", "#."])).err(),
        Some(MapError::BadLine(0))
    );
}

#[test]
fn map_with_exactly_the_declared_rows_is_read() {
    let game = match Game::from_lines(&lines(&["(2, 1) # .", "#", "."])) {
        Ok(game) => game,
        Err(_) => panic!("the lines are a map"),
    };
    assert_eq!(game.state(), &vec![vec![A], vec![D]]);
    let odd = match Game::from_lines(&lines(&["(1, 2) ^ #", "^^"])) {
        Ok(game) => game,
        Err(_) => panic!("the lines are a map"),
    };
    assert_eq!(odd.state(), &vec![vec![A, A]]);
}

#[test]
fn map_without_lines_has_no_header() {
    assert_eq!(Game::from_lines(&Vec::new()).err(), Some(MapError::MissingHeader));
}

#[test]
fn map_header_must_declare_size_and_marks() {
    assert_eq!(Game::from_lines(&lines(&["2 3 # .", "#.#"])).err(), Some(MapError::BadHeader));
    assert_eq!(Game::from_lines(&lines(&["(2,3) # .", "#.#"])).err(), Some(MapError::BadHeader));
    assert_eq!(Game::from_lines(&lines(&["(2, 3) #", "#.#"])).err(), Some(MapError::BadHeader));
    assert_eq!(Game::from_lines(&lines(&[""])).err(), Some(MapError::BadHeader));
}

#[test]
fn map_dimensions_must_fit_sixteen_bits() {
    assert_eq!(
        Game::from_lines(&lines(&["(65536, 3) # .", "#.#"])).err(),
        Some(MapError::BadDimension)
    );
    assert_eq!(
        Game::from_lines(&lines(&["(3, 70000) # .", "#.#"])).err(),
        Some(MapError::BadDimension)
    );
}

#[test]
fn map_marks_must_make_a_pattern() {
    assert_eq!(
        Game::from_lines(&lines(&["(1, 1) [ #", "#"])).err(),
        Some(MapError::BadPattern)
    );
    assert_eq!(Game::from_lines(&lines(&["(1, 1) [ #"])).err(), Some(MapError::BadPattern));
}

#[test]
fn map_lines_must_be_rows_of_marks() {
    assert_eq!(
        Game::from_lines(&lines(&["(2, 3) # .", "#.#", ".x."])).err(),
        Some(MapError::BadLine(1))
    );
    assert_eq!(
        Game::from_lines(&lines(&["(2, 3) # .", "#.", ".#."])).err(),
        Some(MapError::BadLine(0))
    );
    assert_eq!(
        Game::from_lines(&lines(&["(2, 3) # .", "#.#", ".#.#"])).err(),
        Some(MapError::BadLine(1))
    );
    assert_eq!(
        Game::from_lines(&lines(&["(2, 3) # .", "#.#", ""])).err(),
        Some(MapError::BadLine(1))
    );
}

#[test]
fn map_with_too_few_lines_is_truncated() {
    assert_eq!(
        Game::from_lines(&lines(&["(3, 3) # .", "#.#", ".#."])).err(),
        Some(MapError::Truncated)
    );
    assert_eq!(Game::from_lines(&lines(&["(1, 1) # ."])).err(), Some(MapError::Truncated));
}

#[test]
fn map_without_rows_or_columns_has_no_shape() {
    assert_eq!(Game::from_lines(&lines(&["(0, 3) # ."])).err(), Some(MapError::Shape));
    assert_eq!(Game::from_lines(&lines(&["(2, 0) # .", "", ""])).err(), Some(MapError::Shape));
}

#[test]
fn map_line_that_passes_the_pattern_may_still_hold_no_mark() {
    assert_eq!(
        Game::from_lines(&lines(&["(1, 2) ^ #", "ab"])).err(),
        Some(MapError::Marker)
    );
}

#[test]
fn map_marks_outside_ascii_count_as_one_character() {
    let map = lines(&["(1, 3) \u{25a0} \u{25a1}", "\u{25a0}\u{25a1}\u{25a0}"]);
    let game = match Game::from_lines(&map) {
        Ok(game) => game,
        Err(_) => panic!("the lines are a map"),
    };
    assert_eq!(game.state(), &vec![vec![A, D, A]]);
}

#[test]
fn dimension_is_a_decimal_number() {
    assert_eq!(parse_dimension("0"), Some(0));
    assert_eq!(parse_dimension("7"), Some(7));
    assert_eq!(parse_dimension("120"), Some(120));
    assert_eq!(parse_dimension("65535"), Some(65535));
    assert_eq!(parse_dimension("00042"), Some(42));
    assert_eq!(parse_dimension("000000000000000000000065535"), Some(65535));
}

#[test]
fn dimension_rejects_what_is_no_number_of_sixteen_bits() {
    assert_eq!(parse_dimension(""), None);
    assert_eq!(parse_dimension("65536"), None);
    assert_eq!(parse_dimension("99999999999999999999"), None);
    assert_eq!(parse_dimension("12a"), None);
    assert_eq!(parse_dimension("+12"), None);
    assert_eq!(parse_dimension("-1"), None);
    assert_eq!(parse_dimension(" 1"), None);
    assert_eq!(parse_dimension("\u{0663}"), None);
    assert_eq!(parse_dimension("70000x"), None);
}

#[test]
fn header_is_read_from_the_groups() {
    assert_eq!(
        read_header(&groups(&["(12, 7) # .", "12", "7", "#", "."])),
        Ok(Header { rows: 12, cols: 7, alive: '#', dead: '.' })
    );
    assert_eq!(
        read_header(&groups(&["", "1", "2", "ab", "cd"])),
        Ok(Header { rows: 1, cols: 2, alive: 'a', dead: 'c' })
    );
}

#[test]
fn header_faults() {
    assert_eq!(read_header(&None), Err(MapError::BadPattern));
    assert_eq!(read_header(&Some(None)), Err(MapError::BadHeader));
    assert_eq!(read_header(&groups(&["", "1", "2", "#"])), Err(MapError::BadHeader));
    assert_eq!(read_header(&groups(&["", "1", "2", "#", ".", "x"])), Err(MapError::BadHeader));
    assert_eq!(read_header(&groups(&["", "1", "2", "", "."])), Err(MapError::BadHeader));
    assert_eq!(read_header(&groups(&["", "1", "2", "#", ""])), Err(MapError::BadHeader));
    assert_eq!(
        read_header(&Some(Some(vec![
            Some(String::new()),
            Some("1".to_string()),
            None,
            Some("#".to_string()),
            Some(".".to_string()),
        ]))),
        Err(MapError::BadHeader)
    );
    assert_eq!(read_header(&groups(&["", "x", "2", "#", "."])), Err(MapError::BadDimension));
    assert_eq!(read_header(&groups(&["", "1", "65536", "#", "."])), Err(MapError::BadDimension));
    assert_eq!(read_header(&groups(&["", "", "", "", ""])), Err(MapError::BadHeader));
}

#[test]
fn line_pattern_is_a_class_and_a_count() {
    assert_eq!(line_pattern('#', 'o', 5), "[#o]{5}");
    assert_eq!(line_pattern('a', 'b', 0), "[ab]{0}");
    assert_eq!(line_pattern('a', 'b', 10), "[ab]{10}");
    assert_eq!(line_pattern('a', 'b', 65535), "[ab]{65535}");
    assert_eq!(line_pattern('a', 'b', 1203), "[ab]{1203}");
}

#[test]
fn line_pattern_escapes_the_full_stop() {
    assert_eq!(line_pattern('#', '.', 3), "[#\\.]{3}");
    assert_eq!(line_pattern('.', '.', 3), "[\\.\\.]{3}");
    assert_eq!(line_pattern('.', 'x', 42), "[\\.x]{42}");
}

#[test]
fn line_is_judged_by_search_and_length() {
    assert_eq!(judge_line(Some(true), 3, 3, 0), None);
    assert_eq!(judge_line(Some(true), 4, 3, 5), Some(MapError::BadLine(5)));
    assert_eq!(judge_line(Some(false), 3, 3, 2), Some(MapError::BadLine(2)));
    assert_eq!(judge_line(None, 3, 3, 2), Some(MapError::BadPattern));
    assert_eq!(judge_line(Some(true), 65536, 0, 1), Some(MapError::BadLine(1)));
}
