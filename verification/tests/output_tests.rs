#![allow(unused_imports)]
use game_of_life::output::{ConsoleLogger, Logger, Printer, CLEAR_SCREEN};

#[test]
fn logger_should_capture_the_clear_screen_command() {
    let mut console_logger = Logger::new();

    console_logger.clear();

    assert_eq!(CLEAR_SCREEN, console_logger.log());
}

#[test]
fn logger_should_capture_the_print_command_output() {
    let mut console_logger = Logger::new();

    console_logger.print("OUTPUT");

    assert_eq!("OUTPUT", console_logger.log());
}

#[test]
fn output_should_capture_the_clear_screen_command() {
    let mut console_logger = ConsoleLogger::new();

    console_logger.clear();

    assert_eq!(CLEAR_SCREEN, console_logger.log());
}

#[test]
fn output_should_capture_the_print_command_output() {
    let mut console_logger = ConsoleLogger::new();

    console_logger.print("OUTPUT");

    assert_eq!("OUTPUT", console_logger.log());
}
