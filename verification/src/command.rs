//! The command line: what the arguments ask for.

use vstd::prelude::*;
use crate::adjust::Adjustment;
use crate::number::{number_of, parse_number_between, NumberError};
use crate::text::chars_of;

verus! {

/// The line that tells how to call the program.
pub const USAGE: &'static str = "Usage: xhacklight [=N|+N|-N|inc|dec]";

/// What one call of the program is to do.
#[derive(Clone, Copy, Debug, PartialEq, Eq, Structural)]
pub enum Command {
    /// Print the current brightness.
    Query,
    /// Change the brightness.
    Adjust(Adjustment),
}

/// Why the arguments are no command.
#[derive(Clone, Copy, Debug, PartialEq, Eq, Structural)]
pub enum CommandError {
    /// Too many arguments, an empty one, or one that starts with no known
    /// mode character.
    Usage,
    /// What follows the mode character is not a number.
    Number(NumberError),
}

/// `c` is one of the three mode characters.
pub open spec fn is_mode(c: char) -> bool {
    c == '=' || c == '+' || c == '-'
}

/// The adjustment that a mode character makes of the number after it: `=`
/// sets, `+` raises, `-` lowers.
pub open spec fn mode_adjustment(mode: char, number: u32) -> Adjustment
    recommends
        is_mode(mode),
{
    if mode == '=' {
        Adjustment::SetTo(number)
    } else if mode == '+' {
        Adjustment::IncreaseBy(number)
    } else {
        Adjustment::DecreaseBy(number)
    }
}

/// What the one argument `token` asks for: `inc` and `dec` are the smart
/// steps; any other token is a mode character followed by a number. A token
/// that is empty or starts with another character is a usage error, whatever
/// follows; after a mode character, what is not a number is a number error.
pub open spec fn adjustment_of(token: Seq<char>) -> Result<Adjustment, CommandError> {
    if token == seq!['i', 'n', 'c'] {
        Ok(Adjustment::SmartIncrease)
    } else if token == seq!['d', 'e', 'c'] {
        Ok(Adjustment::SmartDecrease)
    } else if token.len() == 0 || !is_mode(token[0]) {
        Err(CommandError::Usage)
    } else {
        match number_of(token.drop_first()) {
            Ok(number) => Ok(mode_adjustment(token[0], number)),
            Err(error) => Err(CommandError::Number(error)),
        }
    }
}

/// What the arguments ask for, the program's own name not among them: none
/// is a query, one is an adjustment, more are a fault.
pub open spec fn command_of(args: Seq<Seq<char>>) -> Result<Command, CommandError> {
    if args.len() == 0 {
        Ok(Command::Query)
    } else if args.len() == 1 {
        match adjustment_of(args[0]) {
            Ok(adjustment) => Ok(Command::Adjust(adjustment)),
            Err(error) => Err(error),
        }
    } else {
        Err(CommandError::Usage)
    }
}

/// Tells whether `chars` spells the three given characters.
fn spells(chars: &Vec<char>, a: char, b: char, c: char) -> (same: bool)
    ensures
        same == (chars@ == seq![a, b, c]),
{
    let same: bool = chars.len() == 3 && chars[0] == a && chars[1] == b && chars[2] == c;
    proof {
        if same {
            assert(chars@ =~= seq![a, b, c]);
        } else if chars.len() == 3 {
            let word = seq![a, b, c];
            assert(word[0] == a && word[1] == b && word[2] == c);
        } else {
            assert(seq![a, b, c].len() == 3);
        }
    }
    same
}

/// Reads one argument as an adjustment.
pub fn parse_adjustment(token: &str) -> (parsed: Result<Adjustment, CommandError>)
    ensures
        parsed == adjustment_of(token@),
{
    let chars = chars_of(token);
    if spells(&chars, 'i', 'n', 'c') {
        return Ok(Adjustment::SmartIncrease);
    }
    if spells(&chars, 'd', 'e', 'c') {
        return Ok(Adjustment::SmartDecrease);
    }
    if chars.len() == 0 {
        return Err(CommandError::Usage);
    }
    let mode: char = chars[0];
    if mode != '=' && mode != '+' && mode != '-' {
        return Err(CommandError::Usage);
    }
    assert(chars@.subrange(1, chars@.len() as int) =~= token@.drop_first());
    match parse_number_between(&chars, 1, chars.len()) {
        Ok(number) => Ok(
            if mode == '=' {
                Adjustment::SetTo(number)
            } else if mode == '+' {
                Adjustment::IncreaseBy(number)
            } else {
                Adjustment::DecreaseBy(number)
            },
        ),
        Err(error) => Err(CommandError::Number(error)),
    }
}

/// Reads the arguments of a call, the program's own name not among them.
pub fn parse_command(args: &Vec<String>) -> (parsed: Result<Command, CommandError>)
    ensures
        parsed == command_of(args.deep_view()),
{
    if args.len() == 0 {
        Ok(Command::Query)
    } else if args.len() == 1 {
        assert(args.deep_view()[0] == args@[0]@);
        match parse_adjustment(args[0].as_str()) {
            Ok(adjustment) => Ok(Command::Adjust(adjustment)),
            Err(error) => Err(error),
        }
    } else {
        Err(CommandError::Usage)
    }
}

} // verus!
