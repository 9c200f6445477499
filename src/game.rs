//! The starting conditions of a game: target word, dictionary and guess budget.
use rand::Rng;
use vstd::prelude::*;
use vstd::string::*;

verus! {

/// Why a game could not be set up.
#[derive(PartialEq, Eq, Structural, Debug, Clone, Copy)]
pub enum GameError {
    /// The word source held no word.
    EmptyDictionary,
    /// The word source could not be read.
    SourceUnavailable,
}

/// `a` comes no later than `b` in lexicographic order of their characters.
pub open spec fn lex_le(a: Seq<char>, b: Seq<char>) -> bool
    decreases a.len(),
{
    if a.len() == 0 {
        true
    } else if b.len() == 0 {
        false
    } else if a[0] != b[0] {
        a[0] < b[0]
    } else {
        lex_le(a.drop_first(), b.drop_first())
    }
}

/// The words are in ascending lexicographic order.
pub open spec fn sorted_words(words: Seq<String>) -> bool {
    forall|i: int, j: int| 0 <= i < j < words.len() ==> lex_le(words[i]@, words[j]@)
}

/// All the words have the same number of characters.
pub open spec fn same_length(words: Seq<String>) -> bool {
    forall|i: int, j: int|
        0 <= i < words.len() && 0 <= j < words.len() ==> words[i]@.len() == words[j]@.len()
}

/// Relies on `slice::sort_unstable` on `String`s: the same words, in ascending
/// order. `String`s compare by their UTF-8 bytes, which orders them as their
/// characters' code points do.
#[verifier::external_body]
fn sort_words(words: &mut Vec<String>)
    ensures
        final(words)@.to_multiset() == old(words)@.to_multiset(),
        sorted_words(final(words)@),
{
    words.sort_unstable();
}

/// Relies on `rand::Rng::gen_range` on the thread-local generator: a number
/// below `len`; it panics on an empty range, which `len > 0` rules out.
#[verifier::external_body]
fn random_index(len: usize) -> (r: usize)
    requires
        len > 0,
    ensures
        r < len,
{
    rand::thread_rng().gen_range(0..len)
}

/// Defines the starting conditions of a Wordle game.
#[derive(Clone)]
pub struct WordleGame {
    pub word: String,
    pub word_list: Vec<String>,
    pub word_len: usize,
    pub max_guesses: u32,
}

impl WordleGame {
    /// The dictionary as character sequences.
    pub open spec fn dictionary(self) -> Seq<Seq<char>> {
        self.word_list@.map_values(|w: String| w@)
    }

    /// The target has the word length and is in the dictionary, every word of
    /// the dictionary has the word length, and at least one guess is allowed.
    pub open spec fn wf(self) -> bool {
        &&& self.word@.len() == self.word_len
        &&& self.dictionary().contains(self.word@)
        &&& forall|i: int| 0 <= i < self.word_list@.len() ==> #[trigger] self.word_list@[i]@.len() == self.word_len
        &&& self.max_guesses > 0
    }

    /// What a game built from `word_list` is, whatever its target: the words
    /// sorted, the length of the first, and the budget.
    pub open spec fn built_from(self, word_list: Seq<String>, max_guesses: u32) -> bool {
        &&& self.wf()
        &&& self.word_list@.to_multiset() == word_list.to_multiset()
        &&& sorted_words(self.word_list@)
        &&& self.word_len == self.word_list@[0]@.len()
        &&& self.max_guesses == max_guesses
    }

    /// Whether `word` is one of the dictionary's words.
    pub fn contains_word(&self, word: &String) -> (r: bool)
        ensures
            r == self.dictionary().contains(word@),
    {
        let mut i: usize = 0;
        while i < self.word_list.len()
            invariant
                i <= self.word_list@.len(),
                forall|j: int| 0 <= j < i ==> self.word_list@[j]@ != word@,
            decreases self.word_list@.len() - i,
        {
            if self.word_list[i] == *word {
                assert(self.dictionary()[i as int] == word@);
                return true;
            }
            i += 1;
        }
        assert(!self.dictionary().contains(word@)) by {
            if self.dictionary().contains(word@) {
                let k = choose|k: int| 0 <= k < self.dictionary().len() && self.dictionary()[k] == word@;
                assert(self.word_list@[k]@ == word@);
            }
        }
        false
    }

    /// `self` and `other` hold the same target, words, length and budget.
    pub open spec fn same_as(self, other: WordleGame) -> bool {
        &&& self.word == other.word
        &&& self.word_list@ == other.word_list@
        &&& self.word_len == other.word_len
        &&& self.max_guesses == other.max_guesses
    }

    /// A copy of this game.
    pub fn duplicate(&self) -> (r: WordleGame)
        ensures
            r.same_as(*self),
    {
        let mut words: Vec<String> = Vec::new();
        let mut i: usize = 0;
        while i < self.word_list.len()
            invariant
                i <= self.word_list@.len(),
                words@ == self.word_list@.subrange(0, i as int),
            decreases self.word_list@.len() - i,
        {
            words.push(self.word_list[i].clone());
            i += 1;
            assert(words@ =~= self.word_list@.subrange(0, i as int));
        }
        assert(words@ =~= self.word_list@);
        WordleGame {
            word: self.word.clone(),
            word_list: words,
            word_len: self.word_len,
            max_guesses: self.max_guesses,
        }
    }

    /// Creates a game from the words of a dictionary: the words are sorted and
    /// the word at `index` of the sorted list becomes the target.
    pub fn with_target_index(word_list: Vec<String>, max_guesses: u32, index: usize) -> (r: Result<
        WordleGame,
        GameError,
    >)
        requires
            max_guesses > 0,
            same_length(word_list@),
            word_list@.len() == 0 || index < word_list@.len(),
        ensures
            r is Err <==> word_list@.len() == 0,
            r is Err ==> r->Err_0 == GameError::EmptyDictionary,
            r is Ok ==> r->Ok_0.built_from(word_list@, max_guesses),
            r is Ok ==> r->Ok_0.word == r->Ok_0.word_list@[index as int],
    {
        if word_list.len() == 0 {
            return Err(GameError::EmptyDictionary);
        }
        let mut words = word_list;
        let ghost given = words@;
        sort_words(&mut words);
        proof {
            broadcast use vstd::seq_lib::group_to_multiset_ensures;

            assert(words@.to_multiset().len() == given.to_multiset().len());
        }
        let word = words[index].clone();
        let word_len = words[0].as_str().unicode_len();
        let game = WordleGame { word, word_list: words, word_len, max_guesses };
        proof {
            broadcast use vstd::seq_lib::group_to_multiset_ensures;

            assert forall|i: int| 0 <= i < words@.len() implies #[trigger] words@[i]@.len()
                == word_len by {
                assert(words@.to_multiset().count(words@[i]) > 0);
                assert(given.contains(words@[i]));
                assert(words@.to_multiset().count(words@[0]) > 0);
                assert(given.contains(words@[0]));
            }
            assert(game.dictionary()[index as int] == game.word@);
        }
        Ok(game)
    }

    /// Creates a game from the words of a dictionary, with a target drawn at
    /// random from it.
    pub fn from_word_list(word_list: Vec<String>, max_guesses: u32) -> (r: Result<
        WordleGame,
        GameError,
    >)
        requires
            max_guesses > 0,
            same_length(word_list@),
        ensures
            r is Err <==> word_list@.len() == 0,
            r is Err ==> r->Err_0 == GameError::EmptyDictionary,
            r is Ok ==> r->Ok_0.built_from(word_list@, max_guesses),
    {
        if word_list.len() == 0 {
            return Err(GameError::EmptyDictionary);
        }
        let index = random_index(word_list.len());
        WordleGame::with_target_index(word_list, max_guesses, index)
    }
}

} // verus!
