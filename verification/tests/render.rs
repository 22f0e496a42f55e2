use game_of_life::game_logic::cell::Cell;
use game_of_life::game_logic::game::Game;
use game_of_life::render::printer::{FancyPrinter, GameRenderer, Glyph, PrintRenderer, Tone};

const A: Cell = Cell::Alive;
const D: Cell = Cell::Dead;

const STEADY: Glyph = Glyph { symbol: '@', tone: Tone::Yellow };
const BORN: Glyph = Glyph { symbol: '@', tone: Tone::Green };
const DIED: Glyph = Glyph { symbol: 'x', tone: Tone::Red };
const EMPTY: Glyph = Glyph { symbol: '.', tone: Tone::Plain };

fn game_of(rows: Vec<Vec<Cell>>) -> Game {
    match Game::from_rows(rows) {
        Ok(game) => game,
        Err(_) => panic!("the rows form a grid"),
    }
}

#[test]
fn plain_frame_shows_each_cell() {
    let game = game_of(vec![vec![A, D, D], vec![D, A, A]]);
    let mut renderer = PrintRenderer {};
    let frame = renderer.render(&game);
    assert_eq!(frame, vec![vec![STEADY, EMPTY, EMPTY], vec![EMPTY, STEADY, STEADY]]);
}

#[test]
fn fancy_printer_starts_from_the_given_state() {
    let state = vec![vec![A, D], vec![D, D]];
    let printer = FancyPrinter::new(&state);
    assert_eq!(printer.previous(), &state);
}

#[test]
fn fancy_frame_shows_what_changed() {
    let mut game = game_of(vec![vec![D, A, D], vec![D, A, D], vec![D, A, D]]);
    let mut printer = FancyPrinter::new(game.state());
    game.update();
    assert!(printer.covers(&game));
    let frame = printer.render(&game);
    assert_eq!(
        frame,
        vec![
            vec![EMPTY, DIED, EMPTY],
            vec![BORN, STEADY, BORN],
            vec![EMPTY, DIED, EMPTY],
        ]
    );
    assert_eq!(printer.previous(), game.state());
    let again = printer.render(&game);
    assert_eq!(
        again,
        vec![
            vec![EMPTY, EMPTY, EMPTY],
            vec![STEADY, STEADY, STEADY],
            vec![EMPTY, EMPTY, EMPTY],
        ]
    );
}

#[test]
fn fancy_printer_keeps_what_lies_outside_the_game() {
    let game = game_of(vec![vec![A, D]]);
    let mut printer = FancyPrinter::new(&vec![vec![D, D, A], vec![A, A, A]]);
    assert!(printer.covers(&game));
    let frame = printer.render(&game);
    assert_eq!(frame, vec![vec![BORN, EMPTY]]);
    assert_eq!(printer.previous(), &vec![vec![A, D, A], vec![A, A, A]]);
}

#[test]
fn fancy_printer_tells_when_it_is_too_small() {
    let game = game_of(vec![vec![A, D], vec![D, D]]);
    assert!(!FancyPrinter::new(&vec![vec![A, D]]).covers(&game));
    assert!(!FancyPrinter::new(&vec![vec![A, D], vec![D]]).covers(&game));
    assert!(!FancyPrinter::new(&vec![]).covers(&game));
    assert!(FancyPrinter::new(&vec![vec![A, D], vec![D, A]]).covers(&game));
}
