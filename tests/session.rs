use wordle::LetterValidity::{Correct, Incorrect, WrongPos};
use wordle::{GameResult, GuessResult, WordleGame, WordleSession};

fn game(word: &str, words: &[&str], max_guesses: u32) -> WordleGame {
    WordleGame {
        word: String::from(word),
        word_list: words.iter().map(|w| String::from(*w)).collect(),
        word_len: word.chars().count(),
        max_guesses,
    }
}

#[test]
fn eval1() {
    let ws = WordleSession {
        game: WordleGame {
            word: String::from("aaaaa"),
            word_list: vec![String::from("aaaaa"), String::from("bbbbb")],
            word_len: 5,
            max_guesses: 2,
        },
        guesses: Vec::new(),
    };
    assert!(matches!(ws.eval(&String::from("x")), GuessResult::Invalid))
}

#[test]
fn eval2() {
    let ws = WordleSession {
        game: WordleGame {
            word: String::from("apple"),
            word_list: vec![String::from("apple"), String::from("grape")],
            word_len: 5,
            max_guesses: 2,
        },
        guesses: Vec::new(),
    };
    let r = ws.eval(&String::from("grape"));
    assert_eq!(r, GuessResult::Valid(vec![Incorrect, Incorrect, WrongPos, WrongPos, Correct]));
}

#[test]
fn eval3() {
    let ws = WordleSession {
        game: WordleGame {
            word: String::from("aaaaa"),
            word_list: vec![String::from("aaaaa"), String::from("bbbbb")],
            word_len: 5,
            max_guesses: 2,
        },
        guesses: Vec::new(),
    };
    assert!(matches!(ws.eval(&String::from("ccccc")), GuessResult::NotInDict))
}

#[test]
fn eval4() {
    let mut ws = WordleSession {
        game: WordleGame {
            word: String::from("aaaaa"),
            word_list: vec![String::from("aaaaa"), String::from("bbbbb")],
            word_len: 5,
            max_guesses: 2,
        },
        guesses: Vec::new(),
    };
    assert!(ws.guess(&String::from("bbbbb")).is_ok());
    assert!(matches!(ws.eval(&String::from("bbbbb")), GuessResult::AlreadyUsed))
}

#[test]
fn eval5() {
    let ws = WordleSession {
        game: WordleGame {
            word: String::from("ababa"),
            word_list: vec![String::from("ababa"), String::from("babab")],
            word_len: 5,
            max_guesses: 2,
        },
        guesses: Vec::new(),
    };
    let r = ws.eval(&String::from("babab"));
    assert_eq!(r, GuessResult::Valid(vec![WrongPos, WrongPos, WrongPos, WrongPos, Incorrect]));
}

#[test]
fn guess1() {
    let mut ws = WordleSession {
        game: WordleGame {
            word: String::from("aaaaa"),
            word_list: vec![String::from("aaaaa"), String::from("bbbbb")],
            word_len: 5,
            max_guesses: 2,
        },
        guesses: Vec::new(),
    };
    assert!(ws.guess(&String::from("bbbbb")).is_ok());
    assert!(*ws.guesses.get(0).unwrap() ==
        (String::from("bbbbb"), vec![Incorrect, Incorrect, Incorrect, Incorrect, Incorrect]))
}

#[test]
fn guess2() {
    let mut ws = WordleSession {
        game: WordleGame {
            word: String::from("aaaaa"),
            word_list: vec![String::from("aaaaa"), String::from("bbbbb")],
            word_len: 5,
            max_guesses: 2,
        },
        guesses: Vec::new(),
    };
    assert!(ws.guess(&String::from("ccccc")).is_err());
    assert!(ws.guesses.is_empty());
}

#[test]
fn marks_have_word_length() {
    let ws = WordleSession::new(&game("crane", &["crane", "slate", "trace"], 6));
    match ws.eval(&String::from("trace")) {
        GuessResult::Valid(marks) => assert_eq!(marks.len(), 5),
        other => panic!("unexpected verdict {:?}", other),
    }
}

#[test]
fn exact_match_is_not_taken_by_earlier_copy() {
    let ws = WordleSession::new(&game("hello", &["hello", "lolly"], 6));
    assert_eq!(
        ws.eval(&String::from("lolly")),
        GuessResult::Valid(vec![Incorrect, WrongPos, Correct, Correct, Incorrect])
    );
}

#[test]
fn surplus_copies_are_incorrect() {
    let ws = WordleSession::new(&game("abcde", &["abcde", "eeeee", "xaaax"], 6));
    assert_eq!(
        ws.eval(&String::from("eeeee")),
        GuessResult::Valid(vec![Incorrect, Incorrect, Incorrect, Incorrect, Correct])
    );
    assert_eq!(
        ws.eval(&String::from("xaaax")),
        GuessResult::Valid(vec![Incorrect, WrongPos, Incorrect, Incorrect, Incorrect])
    );
}

#[test]
fn guessing_target_wins() {
    let mut ws = WordleSession::new(&game("apple", &["apple", "grape"], 3));
    assert_eq!(ws.eval(&String::from("apple")), GuessResult::Valid(vec![Correct; 5]));
    assert_eq!(ws.guess(&String::from("apple")), Ok(GameResult::Win));
    assert_eq!(ws.get_guesses().len(), 1);
}

#[test]
fn winning_on_last_guess_is_a_win() {
    let mut ws = WordleSession::new(&game("apple", &["apple", "grape"], 2));
    assert_eq!(ws.guess(&String::from("grape")), Ok(GameResult::Cont));
    assert_eq!(ws.guess(&String::from("apple")), Ok(GameResult::Win));
}

#[test]
fn repeated_guess_is_rejected_and_not_recorded() {
    let mut ws = WordleSession::new(&game("apple", &["apple", "grape", "lemon"], 3));
    assert_eq!(ws.guess(&String::from("grape")), Ok(GameResult::Cont));
    assert_eq!(ws.guess(&String::from("grape")), Err(GuessResult::AlreadyUsed));
    assert_eq!(ws.get_guesses().len(), 1);
}

#[test]
fn budget_used_up_is_lost() {
    let mut ws = WordleSession::new(&game("apple", &["apple", "grape", "lemon", "melon"], 3));
    assert_eq!(ws.remaining_guesses(), 3);
    assert_eq!(ws.guess(&String::from("grape")), Ok(GameResult::Cont));
    assert_eq!(ws.guess(&String::from("lemon")), Ok(GameResult::Cont));
    assert_eq!(ws.remaining_guesses(), 1);
    assert_eq!(ws.guess(&String::from("melon")), Ok(GameResult::OutOfGuesses));
    assert_eq!(ws.remaining_guesses(), 0);
}

#[test]
fn wrong_length_rejected_before_other_checks() {
    let mut ws = WordleSession::new(&game("apple", &["apple", "grape"], 3));
    assert_eq!(ws.guess(&String::from("grape")), Ok(GameResult::Cont));
    assert_eq!(ws.eval(&String::from("grapes")), GuessResult::Invalid);
    assert_eq!(ws.eval(&String::from("app")), GuessResult::Invalid);
    assert_eq!(ws.eval(&String::from("")), GuessResult::Invalid);
    assert_eq!(ws.guess(&String::from("apples")), Err(GuessResult::Invalid));
    assert_eq!(ws.get_guesses().len(), 1);
}

#[test]
fn unknown_word_rejected() {
    let mut ws = WordleSession::new(&game("apple", &["apple", "grape"], 3));
    assert_eq!(ws.guess(&String::from("zzzzz")), Err(GuessResult::NotInDict));
    assert!(ws.get_guesses().is_empty());
}

#[test]
fn guesses_recorded_in_order() {
    let mut ws = WordleSession::new(&game("apple", &["apple", "grape", "lemon"], 4));
    assert_eq!(ws.guess(&String::from("lemon")), Ok(GameResult::Cont));
    assert_eq!(ws.guess(&String::from("grape")), Ok(GameResult::Cont));
    let g = ws.get_guesses();
    assert_eq!(g[0].0, "lemon");
    assert_eq!(g[0].1, vec![WrongPos, WrongPos, Incorrect, Incorrect, Incorrect]);
    assert_eq!(g[1].0, "grape");
    assert_eq!(g[1].1, vec![Incorrect, Incorrect, WrongPos, WrongPos, Correct]);
}
