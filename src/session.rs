//! A game in progress: the guesses made so far, and the submission of a new one.
use crate::evaluation::{evaluate, evaluation, law_exact_guess_all_correct, LetterValidity};
use crate::game::WordleGame;
use vstd::prelude::*;
use vstd::string::*;

verus! {

/// Game state after the player performs a guess
#[derive(PartialEq, Eq, Structural, Debug, Clone, Copy)]
pub enum GameResult {
    /// Player guesses correctly within the guess limit. (End)
    Win,
    /// Continue to next guess
    Cont,
    /// Player has ran out of guesses. (End)
    OutOfGuesses,
}

/// Result of guess attempt
#[derive(PartialEq, Debug)]
pub enum GuessResult {
    /// Word is a valid guess
    Valid(Vec<LetterValidity>),
    /// Word is not in dictionary (word file)
    NotInDict,
    /// Word has already been used in a previous guess
    AlreadyUsed,
    /// Word is invalid for any other reason
    Invalid,
}

/// What a guess attempt comes to, as mathematical values.
pub enum Verdict {
    /// The word is taken, with these marks.
    Accepted(Seq<LetterValidity>),
    /// The word is not in the dictionary.
    NotInDict,
    /// The word was taken before.
    AlreadyUsed,
    /// The word has the wrong length.
    Invalid,
}

impl View for GuessResult {
    type V = Verdict;

    open spec fn view(&self) -> Verdict {
        match self {
            GuessResult::Valid(marks) => Verdict::Accepted(marks@),
            GuessResult::NotInDict => Verdict::NotInDict,
            GuessResult::AlreadyUsed => Verdict::AlreadyUsed,
            GuessResult::Invalid => Verdict::Invalid,
        }
    }
}

/// The verdict on guessing `w` in `game` after the words `played`: a wrong
/// length first, then a repeated word, then a word outside the dictionary;
/// otherwise the marks of `w` against the target.
pub open spec fn judge(game: WordleGame, played: Seq<Seq<char>>, w: Seq<char>) -> Verdict {
    if w.len() != game.word_len {
        Verdict::Invalid
    } else if played.contains(w) {
        Verdict::AlreadyUsed
    } else if !game.dictionary().contains(w) {
        Verdict::NotInDict
    } else {
        Verdict::Accepted(evaluation(w, game.word@))
    }
}

/// The state of `game` after the accepted words `played`: won once the target
/// was played, else lost once the budget is used up, else going on.
pub open spec fn outcome(game: WordleGame, played: Seq<Seq<char>>) -> GameResult {
    if played.contains(game.word@) {
        GameResult::Win
    } else if played.len() >= game.max_guesses {
        GameResult::OutOfGuesses
    } else {
        GameResult::Cont
    }
}

/// An accepted guess gets one mark for each letter, as many as the game's
/// word length.
pub proof fn law_marks_match_word_length(game: WordleGame, played: Seq<Seq<char>>, w: Seq<char>)
    requires
        judge(game, played, w) is Accepted,
    ensures
        judge(game, played, w)->Accepted_0.len() == game.word_len,
{
}

/// A word of the wrong length is rejected as invalid, whether or not it is in
/// the dictionary and whether or not it was played.
pub proof fn law_wrong_length_rejected(game: WordleGame, played: Seq<Seq<char>>, w: Seq<char>)
    requires
        w.len() != game.word_len,
    ensures
        judge(game, played, w) == Verdict::Invalid,
{
}

/// A word that was just accepted is rejected as already used when it is
/// guessed again.
pub proof fn law_repeat_guess_rejected(game: WordleGame, played: Seq<Seq<char>>, w: Seq<char>)
    requires
        judge(game, played, w) is Accepted,
    ensures
        judge(game, played.push(w), w) == Verdict::AlreadyUsed,
{
    assert(played.push(w)[played.len() as int] == w);
}

/// With no winning word among them, the accepted guesses leave the game going
/// on until there are as many as the budget, and lost then.
pub proof fn law_budget_exhausted(game: WordleGame, played: Seq<Seq<char>>)
    requires
        played.len() <= game.max_guesses,
        forall|i: int| 0 <= i < played.len() ==> played[i] != game.word@,
    ensures
        outcome(game, played) == (if played.len() == game.max_guesses {
            GameResult::OutOfGuesses
        } else {
            GameResult::Cont
        }),
{
}

/// Defines a Wordle game with a list of previous guesses.
pub struct WordleSession {
    pub game: WordleGame,
    pub guesses: Vec<(String, Vec<LetterValidity>)>,
}

impl WordleSession {
    /// The accepted guesses, oldest first, each with its marks.
    pub open spec fn history(self) -> Seq<(Seq<char>, Seq<LetterValidity>)> {
        self.guesses@.map_values(|g: (String, Vec<LetterValidity>)| (g.0@, g.1@))
    }

    /// The accepted words, oldest first.
    pub open spec fn played(self) -> Seq<Seq<char>> {
        self.history().map_values(|g: (Seq<char>, Seq<LetterValidity>)| g.0)
    }

    /// Where the game stands after the accepted guesses.
    pub open spec fn state(self) -> GameResult {
        outcome(self.game, self.played())
    }

    /// The game is well formed, no more guesses were accepted than it allows,
    /// no word twice, each a dictionary word recorded with its marks.
    pub open spec fn wf(self) -> bool {
        &&& self.game.wf()
        &&& self.played().len() <= self.game.max_guesses
        &&& self.played().no_duplicates()
        &&& forall|i: int|
            0 <= i < self.history().len() ==> #[trigger] self.history()[i].1 == evaluation(
                self.history()[i].0,
                self.game.word@,
            ) && self.game.dictionary().contains(self.history()[i].0)
    }

    /// Guessing the target while the game goes on is accepted, marks every
    /// letter `Correct`, and wins the game.
    pub proof fn law_guessing_target_wins(self)
        requires
            self.wf(),
            self.state() == GameResult::Cont,
        ensures
            judge(self.game, self.played(), self.game.word@) == Verdict::Accepted(
                Seq::new(self.game.word_len as nat, |i: int| LetterValidity::Correct),
            ),
            outcome(self.game, self.played().push(self.game.word@)) == GameResult::Win,
    {
        law_exact_guess_all_correct(self.game.word@);
        assert(self.played().push(self.game.word@)[self.played().len() as int] == self.game.word@);
    }

    /// A word of the right length that is not in the dictionary is rejected as
    /// such: no accepted guess can be that word.
    pub proof fn law_unknown_word_rejected(self, w: Seq<char>)
        requires
            self.wf(),
            w.len() == self.game.word_len,
            !self.game.dictionary().contains(w),
        ensures
            judge(self.game, self.played(), w) == Verdict::NotInDict,
    {
        if self.played().contains(w) {
            let k = choose|k: int| 0 <= k < self.played().len() && self.played()[k] == w;
            assert(self.history()[k].0 == w);
            assert(self.history()[k].1 == evaluation(w, self.game.word@));
        }
    }

    /// Create a `WordleSession` in starting state.
    pub fn new(game: &WordleGame) -> (s: WordleSession)
        requires
            game.wf(),
        ensures
            s.game.same_as(*game),
            s.history() == Seq::<(Seq<char>, Seq<LetterValidity>)>::empty(),
            s.wf(),
            s.state() == GameResult::Cont,
    {
        let s = WordleSession { game: game.duplicate(), guesses: Vec::new() };
        assert(s.history() =~= Seq::<(Seq<char>, Seq<LetterValidity>)>::empty());
        assert(s.played() =~= Seq::<Seq<char>>::empty());
        s
    }

    /// Whether `word` was accepted before.
    fn already_guessed(&self, word: &String) -> (r: bool)
        ensures
            r == self.played().contains(word@),
    {
        let mut i: usize = 0;
        while i < self.guesses.len()
            invariant
                i <= self.guesses@.len(),
                forall|j: int| 0 <= j < i ==> self.guesses@[j].0@ != word@,
            decreases self.guesses@.len() - i,
        {
            if self.guesses[i].0 == *word {
                assert(self.played()[i as int] == word@);
                return true;
            }
            i += 1;
        }
        assert(!self.played().contains(word@)) by {
            if self.played().contains(word@) {
                let k = choose|k: int| 0 <= k < self.played().len() && self.played()[k] == word@;
                assert(self.guesses@[k].0@ == word@);
            }
        }
        false
    }

    /// Makes a guess using `word`. If the guess is valid, then append the guess onto self.
    pub fn guess(&mut self, word: &String) -> (r: Result<GameResult, GuessResult>)
        requires
            old(self).wf(),
            old(self).state() == GameResult::Cont,
        ensures
            final(self).wf(),
            final(self).game == old(self).game,
            r is Ok <==> judge(old(self).game, old(self).played(), word@) is Accepted,
            r is Ok ==> final(self).history() == old(self).history().push(
                (word@, judge(old(self).game, old(self).played(), word@)->Accepted_0),
            ) && r->Ok_0 == final(self).state(),
            r is Err ==> final(self).history() == old(self).history() && r->Err_0@ == judge(
                old(self).game,
                old(self).played(),
                word@,
            ),
    {
        let ghost before = *self;
        let result = self.eval(word);
        match result {
            GuessResult::Valid(r) => {
                self.guesses.push((word.clone(), r));
                proof {
                    let w = word@;
                    assert(self.history() =~= before.history().push((w, r@)));
                    assert(self.played() =~= before.played().push(w));
                    assert(self.history()[before.history().len() as int].0 == w);
                    assert forall|i: int| 0 <= i < self.history().len() implies #[trigger] self.history()[i].1
                        == evaluation(self.history()[i].0, self.game.word@)
                        && self.game.dictionary().contains(self.history()[i].0) by {
                        if i < before.history().len() {
                            assert(self.history()[i] == before.history()[i]);
                        }
                    }
                }
                if self.game.word == *word {
                    proof {
                        assert(self.played()[self.played().len() - 1] == word@);
                    }
                    Ok(GameResult::Win)
                } else if self.guesses.len() == self.game.max_guesses as usize {
                    proof {
                        assert(!self.played().contains(self.game.word@)) by {
                            if self.played().contains(self.game.word@) {
                                let k = choose|k: int|
                                    0 <= k < self.played().len() && self.played()[k] == self.game.word@;
                                if k < before.played().len() {
                                    assert(before.played()[k] == self.game.word@);
                                }
                            }
                        }
                    }
                    Ok(GameResult::OutOfGuesses)
                } else {
                    proof {
                        assert(!self.played().contains(self.game.word@)) by {
                            if self.played().contains(self.game.word@) {
                                let k = choose|k: int|
                                    0 <= k < self.played().len() && self.played()[k] == self.game.word@;
                                if k < before.played().len() {
                                    assert(before.played()[k] == self.game.word@);
                                }
                            }
                        }
                    }
                    Ok(GameResult::Cont)
                }
            },
            _ => { Err(result) },
        }
    }

    /// Evaluates the individual letters of `word` for whether they are in the right position, and produces a `GuessResult`.
    pub fn eval(&self, word: &String) -> (r: GuessResult)
        requires
            self.wf(),
        ensures
            r@ == judge(self.game, self.played(), word@),
    {
        if word.as_str().unicode_len() != self.game.word_len {
            GuessResult::Invalid
        } else if self.already_guessed(word) {
            GuessResult::AlreadyUsed
        } else if !self.game.contains_word(word) {
            GuessResult::NotInDict
        } else {
            GuessResult::Valid(evaluate(word, &self.game.word))
        }
    }

    /// How many more guesses the budget allows: the empty rows of the board.
    pub fn remaining_guesses(&self) -> (r: usize)
        requires
            self.wf(),
        ensures
            r == self.game.max_guesses - self.played().len(),
    {
        self.game.max_guesses as usize - self.guesses.len()
    }

    /// The accepted guesses, oldest first, each with its marks.
    pub fn get_guesses(&self) -> (r: &Vec<(String, Vec<LetterValidity>)>)
        ensures
            r@.map_values(|g: (String, Vec<LetterValidity>)| (g.0@, g.1@)) == self.history(),
    {
        &self.guesses
    }
}

} // verus!
