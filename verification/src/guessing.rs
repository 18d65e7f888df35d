//! A guess in the number-guessing game, kept within its valid range by
//! construction.

use vstd::prelude::*;

verus! {

/// A guessed number, guaranteed to lie between 1 and 100.
pub struct Guess {
    value: i32,
}

impl Guess {
    /// The guessed number.
    pub closed spec fn spec_value(&self) -> i32 {
        self.value
    }

    /// Wraps a number as a guess; out-of-range numbers are not guesses.
    pub fn new(value: i32) -> (r: Guess)
        requires
            1 <= value <= 100,
        ensures
            r.spec_value() == value,
    {
        Guess { value }
    }

    /// Reads the guessed number back; it is always in range.
    pub fn value(&self) -> (r: i32)
        ensures
            r == self.spec_value(),
            1 <= self.spec_value() <= 100 ==> 1 <= r <= 100,
    {
        self.value
    }
}

/// What a guess means against the secret: the game's one decision.
#[derive(Debug, PartialEq, Eq, Structural, Clone, Copy)]
pub enum GuessOutcome {
    TooSmall,
    TooBig,
    Win,
}

/// Compares a guess with the secret number.
pub fn guess_outcome(guess: i32, secret: i32) -> (r: GuessOutcome)
    ensures
        r == GuessOutcome::TooSmall <==> guess < secret,
        r == GuessOutcome::TooBig <==> guess > secret,
        r == GuessOutcome::Win <==> guess == secret,
{
    if guess < secret {
        GuessOutcome::TooSmall
    } else if guess > secret {
        GuessOutcome::TooBig
    } else {
        GuessOutcome::Win
    }
}

} // verus!
