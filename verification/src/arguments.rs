//! The arguments of a run of the game, as given on a command line.
use crate::settings::Settings;
use crate::size::Size;
use crate::text::chars_of;
use std::time::Duration;
use vstd::prelude::*;

verus! {

/// The number of arguments that a run takes.
pub const NUMBER_OF_ARGUMENTS: usize = 5;

/// The arguments of a run.
#[derive(Debug)]
pub struct Arguments {
    /// The path of the file that holds the pattern.
    pub pattern_file_path: String,
    /// The number of rows of the background grid.
    pub rows: u32,
    /// The number of columns of the background grid.
    pub columns: u32,
    /// The number of generations to run the game for.
    pub generations: u32,
    /// The lifetime of a generation in seconds.
    pub generation_lifetime: u32,
}

/// What is wrong with the arguments of a run.
#[derive(Debug, Clone, Copy, PartialEq, Eq, Structural)]
pub enum ArgumentsError {
    /// There are `got` arguments where `expected` are needed.
    WrongNumberOfArguments { expected: usize, got: usize },
    /// The first argument names no file.
    PatternFileNotFound,
    /// The argument at `position`, counted from zero, is no number that a
    /// `u32` holds.
    InvalidPositiveInteger { position: usize },
}

/// The duration of `secs` whole seconds.
pub uninterp spec fn duration_of_secs(secs: u64) -> Duration;

/// `Duration::from_secs` makes the duration of that many whole seconds: the
/// same number always gives the same duration.
pub assume_specification[ Duration::from_secs ](secs: u64) -> (duration: Duration)
    ensures
        duration == duration_of_secs(secs),
;

/// Whether `c` is one of the ten decimal digits.
pub open spec fn is_digit(c: char) -> bool {
    '0' <= c <= '9'
}

/// The number that the decimal digits `digits` write.
pub open spec fn digits_value(digits: Seq<char>) -> nat
    decreases digits.len(),
{
    if digits.len() == 0 {
        0
    } else {
        10 * digits_value(digits.drop_last()) + (digits.last() as u32 - '0' as u32) as nat
    }
}

/// The digits of a number text: the text without a plus sign in front.
pub open spec fn digits_of(text: Seq<char>) -> Seq<char> {
    if text.len() > 0 && text[0] == '+' {
        text.drop_first()
    } else {
        text
    }
}

/// What reading `text` as a `u32` gives: the number written by its decimal
/// digits, before which a plus sign may stand, where there is at least one
/// digit, nothing else, and the number is a `u32`.
pub open spec fn parse_u32(text: Seq<char>) -> Option<u32> {
    let digits = digits_of(text);
    if digits.len() > 0 && (forall|i: int| 0 <= i < digits.len() ==> is_digit(#[trigger] digits[i]))
        && digits_value(digits) <= u32::MAX {
        Some(digits_value(digits) as u32)
    } else {
        None
    }
}

/// The first fault of the arguments `args`, if they have one: their number,
/// then the pattern file, then the four numbers from left to right.
pub open spec fn first_fault(args: Seq<Seq<char>>, pattern_file_exists: bool) -> Option<
    ArgumentsError,
> {
    if args.len() != NUMBER_OF_ARGUMENTS {
        Some(
            ArgumentsError::WrongNumberOfArguments {
                expected: NUMBER_OF_ARGUMENTS,
                got: args.len() as usize,
            },
        )
    } else if !pattern_file_exists {
        Some(ArgumentsError::PatternFileNotFound)
    } else if parse_u32(args[1]) is None {
        Some(ArgumentsError::InvalidPositiveInteger { position: 1 })
    } else if parse_u32(args[2]) is None {
        Some(ArgumentsError::InvalidPositiveInteger { position: 2 })
    } else if parse_u32(args[3]) is None {
        Some(ArgumentsError::InvalidPositiveInteger { position: 3 })
    } else if parse_u32(args[4]) is None {
        Some(ArgumentsError::InvalidPositiveInteger { position: 4 })
    } else {
        None
    }
}

/// The texts of a list of strings.
pub open spec fn texts_of(args: Seq<String>) -> Seq<Seq<char>> {
    args.map_values(|arg: String| arg@)
}

/// A longer text of digits writes no smaller number.
pub proof fn lemma_digits_value_grows(digits: Seq<char>, k: int)
    requires
        0 <= k <= digits.len(),
    ensures
        digits_value(digits.take(k)) <= digits_value(digits),
    decreases digits.len() - k,
{
    if k == digits.len() {
        assert(digits.take(k) =~= digits);
    } else {
        assert(digits.drop_last().take(k) =~= digits.take(k));
        lemma_digits_value_grows(digits.drop_last(), k);
    }
}

/// Reads `arg_value` as a `u32`.
pub fn parse_positive_integer(arg_value: &str) -> (value: Option<u32>)
    ensures
        value == parse_u32(arg_value@),
{
    let chars = chars_of(arg_value);
    let start: usize = if chars.len() > 0 && chars[0] == '+' {
        1
    } else {
        0
    };
    let ghost digits = digits_of(chars@);
    assert(digits =~= chars@.subrange(start as int, chars.len() as int));
    if start == chars.len() {
        return None;
    }
    let mut value: u64 = 0;
    let mut index: usize = start;
    assert(digits.take(0) =~= Seq::<char>::empty());
    while index < chars.len()
        invariant
            start <= index <= chars.len(),
            start < chars.len(),
            digits == chars@.subrange(start as int, chars.len() as int),
            digits == digits_of(arg_value@),
            forall|i: int| 0 <= i < index - start ==> is_digit(#[trigger] digits[i]),
            value == digits_value(digits.take(index - start)),
            value <= u32::MAX,
        decreases chars.len() - index,
    {
        let c = chars[index];
        assert(c == digits[index - start]);
        if !('0' <= c && c <= '9') {
            return None;
        }
        let digit: u64 = (c as u32 - '0' as u32) as u64;
        proof {
            let longer = digits.take(index + 1 - start);
            assert(longer.drop_last() =~= digits.take(index - start));
            assert(longer.last() == c);
        }
        let next: u64 = value * 10 + digit;
        if next > u32::MAX as u64 {
            proof {
                lemma_digits_value_grows(digits, index + 1 - start);
            }
            return None;
        }
        value = next;
        index += 1;
    }
    assert(digits.take(chars.len() - start) =~= digits);
    Some(value as u32)
}

/// Reads the arguments of a run. `pattern_file_exists` says whether the
/// first of them names a file.
pub fn parse_args(args: &Vec<String>, pattern_file_exists: bool) -> (result: Result<
    Arguments,
    ArgumentsError,
>)
    ensures
        match result {
            Ok(arguments) => {
                &&& first_fault(texts_of(args@), pattern_file_exists) is None
                &&& arguments.pattern_file_path@ == args@[0]@
                &&& Some(arguments.rows) == parse_u32(args@[1]@)
                &&& Some(arguments.columns) == parse_u32(args@[2]@)
                &&& Some(arguments.generations) == parse_u32(args@[3]@)
                &&& Some(arguments.generation_lifetime) == parse_u32(args@[4]@)
            },
            Err(error) => first_fault(texts_of(args@), pattern_file_exists) == Some(error),
        },
{
    if args.len() != NUMBER_OF_ARGUMENTS {
        return Err(
            ArgumentsError::WrongNumberOfArguments {
                expected: NUMBER_OF_ARGUMENTS,
                got: args.len(),
            },
        );
    }
    if !pattern_file_exists {
        return Err(ArgumentsError::PatternFileNotFound);
    }
    let rows = match parse_positive_integer(args[1].as_str()) {
        Some(value) => value,
        None => {
            return Err(ArgumentsError::InvalidPositiveInteger { position: 1 });
        },
    };
    let columns = match parse_positive_integer(args[2].as_str()) {
        Some(value) => value,
        None => {
            return Err(ArgumentsError::InvalidPositiveInteger { position: 2 });
        },
    };
    let generations = match parse_positive_integer(args[3].as_str()) {
        Some(value) => value,
        None => {
            return Err(ArgumentsError::InvalidPositiveInteger { position: 3 });
        },
    };
    let generation_lifetime = match parse_positive_integer(args[4].as_str()) {
        Some(value) => value,
        None => {
            return Err(ArgumentsError::InvalidPositiveInteger { position: 4 });
        },
    };
    Ok(
        Arguments {
            pattern_file_path: args[0].clone(),
            rows,
            columns,
            generations,
            generation_lifetime,
        },
    )
}

/// The settings of the run that `args` ask for.
pub fn setup_settings(args: &Arguments) -> (settings: Settings)
    ensures
        settings.back_grid_size == (Size { rows: args.rows as usize, columns: args.columns as usize }),
        settings.generations == args.generations,
        settings.generation_lifetime == duration_of_secs(args.generation_lifetime as u64),
{
    Settings {
        back_grid_size: Size::new(args.rows as usize, args.columns as usize),
        generations: args.generations,
        generation_lifetime: Duration::from_secs(args.generation_lifetime as u64),
    }
}

} // verus!
