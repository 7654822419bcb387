use game_of_life::arguments::{
    parse_args, parse_positive_integer, setup_settings, Arguments, ArgumentsError,
};
use game_of_life::coordinates::Coordinates;
use game_of_life::game::play;
use game_of_life::grid::Grid;
use game_of_life::next_generation::next_generation;
use game_of_life::output::{Logger, Printer, CLEAR_SCREEN};
use game_of_life::overlap::overlap;
use game_of_life::patterns::glider;
use game_of_life::settings::Settings;
use game_of_life::size::Size;
use game_of_life::timer::Timer;
use std::cell::Cell;
use std::time::Duration;

struct CountingTimer {
    waited: Cell<Duration>,
    calls: Cell<u32>,
}

impl CountingTimer {
    fn new() -> Self {
        Self {
            waited: Cell::new(Duration::ZERO),
            calls: Cell::new(0),
        }
    }
}

impl Timer for CountingTimer {
    fn wait(&self, duration: Duration) {
        self.waited.set(self.waited.get() + duration);
        self.calls.set(self.calls.get() + 1);
    }
}

fn settings(generations: u32) -> Settings {
    Settings {
        back_grid_size: Size::new(30, 60),
        generations,
        generation_lifetime: Duration::from_secs(2),
    }
}

fn strings(args: &[&str]) -> Vec<String> {
    args.iter().map(|arg| arg.to_string()).collect()
}

#[test]
fn golden_master_test() {
    // One generation: the glider on the dead background is what is shown.
    let mut console = Logger::new();
    let timer = CountingTimer::new();
    let final_state = play(&settings(1), &glider(), &mut console, &timer);

    let mut expected = String::new();
    for row in 0..30 {
        for column in 0..60 {
            let live = matches!(
                (row, column),
                (13, 30) | (14, 31) | (15, 29) | (15, 30) | (15, 31)
            );
            expected.push(if live { '⬜' } else { '⬛' });
        }
        expected.push('\n');
    }
    assert_eq!(final_state, expected);
    assert_eq!(console.log(), format!("{CLEAR_SCREEN}{expected}"));
    assert_eq!(timer.calls.get(), 1);
    assert_eq!(timer.waited.get(), Duration::from_secs(2));
}

#[test]
fn a_game_shows_each_generation_after_clearing_the_screen() {
    let mut console = Logger::new();
    let timer = CountingTimer::new();
    let final_state = play(&settings(3), &glider(), &mut console, &timer);

    let back_grid = Grid::of_dead_cells(30, 60);
    let first = overlap(&back_grid, &glider(), &Coordinates::new(13, 29));
    let second = next_generation(&first);
    let third = next_generation(&second);
    assert_eq!(final_state, third.to_string());
    assert_eq!(
        console.log(),
        format!(
            "{CLEAR_SCREEN}{}{CLEAR_SCREEN}{}{CLEAR_SCREEN}{}",
            first.to_string(),
            second.to_string(),
            third.to_string()
        )
    );
    assert_eq!(timer.calls.get(), 3);
}

#[test]
fn a_game_without_generations_shows_nothing() {
    let mut console = Logger::new();
    let timer = CountingTimer::new();
    assert_eq!(play(&settings(0), &glider(), &mut console, &timer), "");
    assert_eq!(console.log(), "");
    assert_eq!(timer.calls.get(), 0);
}

#[test]
fn a_logger_keeps_what_is_printed_in_order() {
    let mut logger = Logger::default();
    assert_eq!(logger.log(), "");
    logger.print("A");
    logger.clear();
    logger.print("B");
    assert_eq!(logger.log(), format!("A{CLEAR_SCREEN}B"));
    assert_eq!(CLEAR_SCREEN, "\x1B[2J\x1B[1;1H");
}

#[test]
fn numbers_are_read_as_the_standard_library_reads_them() {
    for text in [
        "0",
        "7",
        "007",
        "+5",
        "30",
        "4294967295",
        "4294967296",
        "+4294967295",
        "99999999999999999999999",
        "",
        "+",
        "-",
        "-1",
        "++1",
        "1+",
        " 1",
        "1 ",
        "1_000",
        "12a",
        "a12",
        "٣",
        "1.5",
    ] {
        assert_eq!(
            parse_positive_integer(text),
            text.parse::<u32>().ok(),
            "{text:?}"
        );
    }
    assert_eq!(parse_positive_integer("60"), Some(60));
    assert_eq!(parse_positive_integer("4294967295"), Some(u32::MAX));
    assert_eq!(parse_positive_integer("4294967296"), None);
}

#[test]
fn arguments_are_read_in_order() {
    let args = strings(&["./patterns/glider.txt", "30", "60", "1000", "1"]);
    let arguments: Arguments = parse_args(&args, true).unwrap();
    assert_eq!(arguments.pattern_file_path, "./patterns/glider.txt");
    assert_eq!(arguments.rows, 30);
    assert_eq!(arguments.columns, 60);
    assert_eq!(arguments.generations, 1000);
    assert_eq!(arguments.generation_lifetime, 1);

    let settings = setup_settings(&arguments);
    assert_eq!(settings.back_grid_size, Size::new(30, 60));
    assert_eq!(settings.generations, 1000);
    assert_eq!(settings.generation_lifetime, Duration::from_secs(1));
}

#[test]
fn the_first_fault_of_the_arguments_is_reported() {
    assert_eq!(
        parse_args(&strings(&["glider.txt", "30", "60"]), true).unwrap_err(),
        ArgumentsError::WrongNumberOfArguments {
            expected: 5,
            got: 3
        }
    );
    assert_eq!(
        parse_args(&strings(&[]), false).unwrap_err(),
        ArgumentsError::WrongNumberOfArguments {
            expected: 5,
            got: 0
        }
    );
    assert_eq!(
        parse_args(&strings(&["glider.txt", "x", "60", "1", "1"]), false).unwrap_err(),
        ArgumentsError::PatternFileNotFound
    );
    assert_eq!(
        parse_args(&strings(&["glider.txt", "x", "y", "1", "1"]), true).unwrap_err(),
        ArgumentsError::InvalidPositiveInteger { position: 1 }
    );
    assert_eq!(
        parse_args(&strings(&["glider.txt", "30", "-60", "1", "1"]), true).unwrap_err(),
        ArgumentsError::InvalidPositiveInteger { position: 2 }
    );
    assert_eq!(
        parse_args(&strings(&["glider.txt", "30", "60", "", "1"]), true).unwrap_err(),
        ArgumentsError::InvalidPositiveInteger { position: 3 }
    );
    assert_eq!(
        parse_args(&strings(&["glider.txt", "30", "60", "1", "1s"]), true).unwrap_err(),
        ArgumentsError::InvalidPositiveInteger { position: 4 }
    );
}
