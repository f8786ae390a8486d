use vstd::prelude::*;

verus! {

/// How a guess compares with the secret number.
#[derive(Debug, Clone, Copy, PartialEq, Eq, Structural)]
pub enum GuessOutcome {
    TooHigh,
    TooLow,
    Correct,
}

/// The smallest number the game picks.
pub const LOWEST_SECRET: u32 = 0;

/// The largest number the game picks.
pub const HIGHEST_SECRET: u32 = 100;

/// Calls `rand::random_range(low..=high)`: a number drawn from the
/// thread-local generator, somewhere in `low..=high`. Which number comes out is
/// left open. The call panics on an empty range, hence `low <= high`.
#[verifier::external_body]
fn random_in_inclusive_range(low: u32, high: u32) -> (r: u32)
    requires
        low <= high,
    ensures
        low <= r <= high,
{
    rand::random_range(low..=high)
}

/// Draws the secret number for a new round, between 0 and 100 inclusive.
pub fn draw_secret() -> (secret: u32)
    ensures
        LOWEST_SECRET <= secret <= HIGHEST_SECRET,
{
    random_in_inclusive_range(LOWEST_SECRET, HIGHEST_SECRET)
}

/// Judges a guess against the secret number.
pub fn judge_guess(guess: u32, correct: u32) -> (outcome: GuessOutcome)
    ensures
        outcome == (if guess == correct {
            GuessOutcome::Correct
        } else if guess > correct {
            GuessOutcome::TooHigh
        } else {
            GuessOutcome::TooLow
        }),
{
    if guess == correct {
        GuessOutcome::Correct
    } else if guess > correct {
        GuessOutcome::TooHigh
    } else {
        GuessOutcome::TooLow
    }
}

} // verus!
