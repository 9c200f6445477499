//! Decisions of a terminal front end: whether to ask for another word, what to
//! tell the player about the last attempt, and how the game ended.
use crate::session::{GameResult, GuessResult};
use vstd::prelude::*;

verus! {

/// What the front end does after a guess attempt.
#[derive(PartialEq, Eq, Structural, Debug, Clone, Copy)]
pub enum LoopAction {
    /// Ask the player for another word.
    Prompt,
    /// Show the final board and stop.
    Finish,
}

/// After a won or lost game the front end finishes; after a rejected word or
/// a game that goes on it asks again.
pub fn next_action(result: &Result<GameResult, GuessResult>) -> (a: LoopAction)
    ensures
        a == LoopAction::Finish <==> (result is Ok && result->Ok_0 != GameResult::Cont),
{
    match result {
        Ok(GameResult::Cont) => LoopAction::Prompt,
        Ok(_) => LoopAction::Finish,
        Err(_) => LoopAction::Prompt,
    }
}

/// The line shown above the prompt: why the last word was rejected, or
/// nothing.
pub fn rejection_notice(result: &Result<GameResult, GuessResult>) -> (s: &'static str)
    ensures
        result == Err::<GameResult, GuessResult>(GuessResult::AlreadyUsed) ==> s@
            == "You've already used that word!"@,
        result == Err::<GameResult, GuessResult>(GuessResult::Invalid) ==> s@ == "Invalid word."@,
        result == Err::<GameResult, GuessResult>(GuessResult::NotInDict) ==> s@
            == "That word doesn't exist."@,
        (result is Ok || result->Err_0 is Valid) ==> s@ == ""@,
{
    match result {
        Err(GuessResult::AlreadyUsed) => "You've already used that word!",
        Err(GuessResult::Invalid) => "Invalid word.",
        Err(GuessResult::NotInDict) => "That word doesn't exist.",
        _ => "",
    }
}

/// The closing line of a finished game; none while the game goes on.
pub fn ending_notice(result: GameResult) -> (s: Option<&'static str>)
    ensures
        result == GameResult::Win ==> s == Some("You win!"),
        result == GameResult::OutOfGuesses ==> s == Some("Game over: out of guesses."),
        result == GameResult::Cont ==> s is None,
{
    match result {
        GameResult::Win => Some("You win!"),
        GameResult::OutOfGuesses => Some("Game over: out of guesses."),
        GameResult::Cont => None,
    }
}

} // verus!
