//! A game of guessing a secret number, one line at a time.

use crate::decimal::{i32_of, parse_i32};
use crate::text::{same_text, trim, trimmed, write_line};
use vstd::prelude::*;

verus! {

/// What a line of input means to the game.
#[derive(Clone, Copy, Debug, PartialEq, Eq)]
pub enum Guess {
    /// The line asks to leave the game.
    Exit,
    /// The guess is less than the secret number.
    Less,
    /// The guess is greater than the secret number.
    Greater,
    /// The guess is the secret number: the game is won.
    Equal,
    /// The line is neither `exit` nor an `i32`.
    Invalid,
}

/// What the line read into `buffer` means in a game with the secret number
/// `secret`, white space around the line left aside.
pub open spec fn meaning(secret: int, buffer: Seq<char>) -> Guess {
    let line = trimmed(buffer);
    if line == "exit"@ {
        Guess::Exit
    } else {
        match i32_of(line) {
            Some(num) => if num < secret {
                Guess::Less
            } else if num > secret {
                Guess::Greater
            } else {
                Guess::Equal
            },
            None => Guess::Invalid,
        }
    }
}

/// The two lines that open the game.
pub fn welcome() -> (out: String)
    ensures
        out@ == ("Guess the number!"@.push('\n') + "Please input your guess. Type `exit` to exit."@).push(
            '\n',
        ),
{
    let mut out = String::new();
    write_line(&mut out, "Guess the number!");
    write_line(&mut out, "Please input your guess. Type `exit` to exit.");
    assert(out@ =~= ("Guess the number!"@.push('\n')
        + "Please input your guess. Type `exit` to exit."@).push('\n'));
    out
}

/// Judges the line read into `buffer` against the secret number.
pub fn guess(secret_number: i32, buffer: &str) -> (r: Guess)
    ensures
        r == meaning(secret_number as int, buffer@),
{
    let trimmed_buffer = trim(buffer);
    if same_text(trimmed_buffer, "exit") {
        Guess::Exit
    } else {
        match parse_i32(trimmed_buffer) {
            Some(num) => {
                if num < secret_number {
                    Guess::Less
                } else if num > secret_number {
                    Guess::Greater
                } else {
                    Guess::Equal
                }
            },
            None => Guess::Invalid,
        }
    }
}

} // verus!
