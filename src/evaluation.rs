//! Scoring of one guess against the target word.
//!
//! Exact matches are resolved first; the letters left over in the target are
//! then handed out, left to right, to the guessed letters that were not exact
//! matches.
use counter::Counter;
use vstd::multiset::Multiset;
use vstd::prelude::*;
use vstd::string::*;

verus! {

/// Wordle letter validity compared to actual word
#[derive(PartialEq, Eq, Structural, Hash, Debug, Clone, Copy)]
pub enum LetterValidity {
    /// Letter is in the correct position
    Correct,
    /// Letter exists but is in the wrong position
    WrongPos,
    /// Letter does not exist
    Incorrect,
}

#[verifier::external_type_specification]
#[verifier::external_body]
#[verifier::reject_recursive_types(T)]
#[verifier::reject_recursive_types(N)]
#[verifier::reject_recursive_types(S)]
pub struct ExCounter<T, N, S>(Counter<T, N, S>);

/// The letters that a letter counter holds, each as often as its count.
pub uninterp spec fn letter_counts(c: Counter<char>) -> Multiset<char>;

/// Relies on `FromIterator` of `counter::Counter`: collecting the characters
/// counts each character as often as it occurs.
#[verifier::external_body]
fn count_letters(s: &str) -> (r: Counter<char>)
    ensures
        letter_counts(r) == s@.to_multiset(),
{
    s.chars().collect()
}

/// Relies on `Index` of `counter::Counter`: the count of a key, zero for a
/// key that was never counted.
#[verifier::external_body]
fn count_of(c: &Counter<char>, ch: char) -> (r: usize)
    ensures
        r as nat == letter_counts(*c).count(ch),
{
    c[&ch]
}

/// Relies on `IndexMut` of `counter::Counter`: the count of the key is
/// lowered by one, the other counts stay.
#[verifier::external_body]
fn take_one(c: &mut Counter<char>, ch: char)
    requires
        letter_counts(*old(c)).count(ch) > 0,
    ensures
        letter_counts(*final(c)) == letter_counts(*old(c)).remove(ch),
{
    c[&ch] -= 1;
}

/// How often `c` occurs among the first `hi` characters of `s`.
pub open spec fn occurrences(s: Seq<char>, hi: int, c: char) -> nat
    decreases hi,
{
    if hi <= 0 {
        0
    } else {
        occurrences(s, hi - 1, c) + (if s[hi - 1] == c { 1nat } else { 0nat })
    }
}

/// How many of the first `hi` positions hold `c` in both the guess and the target.
pub open spec fn exact_matches(guess: Seq<char>, target: Seq<char>, hi: int, c: char) -> nat
    decreases hi,
{
    if hi <= 0 {
        0
    } else {
        exact_matches(guess, target, hi - 1, c) + (if guess[hi - 1] == c && target[hi - 1] == c {
            1nat
        } else {
            0nat
        })
    }
}

/// How many of the first `hi` positions hold `c` in the guess but not in the target.
pub open spec fn misplaced(guess: Seq<char>, target: Seq<char>, hi: int, c: char) -> nat
    decreases hi,
{
    if hi <= 0 {
        0
    } else {
        misplaced(guess, target, hi - 1, c) + (if guess[hi - 1] == c && target[hi - 1] != c {
            1nat
        } else {
            0nat
        })
    }
}

/// The copies of `c` in the target that no exact match uses up.
pub open spec fn spare(guess: Seq<char>, target: Seq<char>, c: char) -> int {
    occurrences(target, target.len() as int, c) - exact_matches(guess, target, guess.len() as int, c)
}

/// The mark of position `i`: an exact match is correct; any other letter is in
/// the wrong position while fewer earlier misplaced copies of it came before
/// than the target has spare copies of it.
pub open spec fn validity_at(guess: Seq<char>, target: Seq<char>, i: int) -> LetterValidity {
    if guess[i] == target[i] {
        LetterValidity::Correct
    } else if misplaced(guess, target, i, guess[i]) < spare(guess, target, guess[i]) {
        LetterValidity::WrongPos
    } else {
        LetterValidity::Incorrect
    }
}

/// The marks of a guess against a target word of the same length.
pub open spec fn evaluation(guess: Seq<char>, target: Seq<char>) -> Seq<LetterValidity> {
    Seq::new(guess.len(), |i: int| validity_at(guess, target, i))
}

/// How many of the first `hi` positions hold `c` in the guess with a mark other
/// than `Incorrect`.
pub open spec fn marked(guess: Seq<char>, marks: Seq<LetterValidity>, hi: int, c: char) -> nat
    decreases hi,
{
    if hi <= 0 {
        0
    } else {
        marked(guess, marks, hi - 1, c) + (if guess[hi - 1] == c && marks[hi - 1]
            != LetterValidity::Incorrect {
            1nat
        } else {
            0nat
        })
    }
}

proof fn lemma_occurrences_monotone(s: Seq<char>, lo: int, hi: int, c: char)
    requires
        0 <= lo <= hi,
    ensures
        occurrences(s, lo, c) <= occurrences(s, hi, c),
    decreases hi - lo,
{
    if lo < hi {
        lemma_occurrences_monotone(s, lo, hi - 1, c);
    }
}

proof fn lemma_exact_within_occurrences(guess: Seq<char>, target: Seq<char>, hi: int, c: char)
    requires
        0 <= hi,
    ensures
        exact_matches(guess, target, hi, c) <= occurrences(target, hi, c),
    decreases hi,
{
    if hi > 0 {
        lemma_exact_within_occurrences(guess, target, hi - 1, c);
    }
}

proof fn lemma_occurrences_multiset(s: Seq<char>, hi: int, c: char)
    requires
        0 <= hi <= s.len(),
    ensures
        s.subrange(0, hi).to_multiset().count(c) == occurrences(s, hi, c),
    decreases hi,
{
    broadcast use vstd::seq_lib::group_to_multiset_ensures;

    if hi == 0 {
        assert(s.subrange(0, 0) =~= Seq::<char>::empty());
    } else {
        lemma_occurrences_multiset(s, hi - 1, c);
        assert(s.subrange(0, hi) =~= s.subrange(0, hi - 1).push(s[hi - 1]));
    }
}

/// Up to any position, the letters `c` that are not marked `Incorrect` are the
/// exact matches plus as many misplaced ones as the spare copies allow.
proof fn lemma_marked_prefix(guess: Seq<char>, target: Seq<char>, hi: int, c: char)
    requires
        guess.len() == target.len(),
        0 <= hi <= guess.len(),
        spare(guess, target, c) >= 0,
    ensures
        marked(guess, evaluation(guess, target), hi, c) == exact_matches(guess, target, hi, c)
            + vstd::math::min(misplaced(guess, target, hi, c) as int, spare(guess, target, c)),
    decreases hi,
{
    if hi > 0 {
        lemma_marked_prefix(guess, target, hi - 1, c);
    }
}

/// No letter is marked `Correct` or `WrongPos` more often than the target word
/// holds it.
pub proof fn law_marks_within_target_count(guess: Seq<char>, target: Seq<char>, c: char)
    requires
        guess.len() == target.len(),
    ensures
        marked(guess, evaluation(guess, target), guess.len() as int, c) <= occurrences(
            target,
            target.len() as int,
            c,
        ),
{
    lemma_exact_within_occurrences(guess, target, guess.len() as int, c);
    lemma_marked_prefix(guess, target, guess.len() as int, c);
}

/// A guess equal to the target is marked `Correct` everywhere.
pub proof fn law_exact_guess_all_correct(target: Seq<char>)
    ensures
        evaluation(target, target) == Seq::new(target.len(), |i: int| LetterValidity::Correct),
{
    assert(evaluation(target, target) =~= Seq::new(target.len(), |i: int| LetterValidity::Correct));
}

/// The characters of `s`, in order.
fn chars_of(s: &str) -> (r: Vec<char>)
    ensures
        r@ == s@,
{
    let n = s.unicode_len();
    let mut r: Vec<char> = Vec::new();
    let mut i: usize = 0;
    while i < n
        invariant
            n == s@.len(),
            i <= n,
            r@ == s@.subrange(0, i as int),
        decreases n - i,
    {
        r.push(s.get_char(i));
        i += 1;
        assert(r@ =~= s@.subrange(0, i as int));
    }
    assert(r@ =~= s@);
    r
}

/// Marks each letter of `guess` against `target`: exact matches first, then
/// the target's remaining letters, left to right, to the other positions.
pub fn evaluate(guess: &String, target: &String) -> (r: Vec<LetterValidity>)
    requires
        guess@.len() == target@.len(),
    ensures
        r@ == evaluation(guess@, target@),
{
    let g = chars_of(guess.as_str());
    let t = chars_of(target.as_str());
    let n = g.len();
    let ghost gs = g@;
    let ghost ts = t@;
    let mut remaining = count_letters(target.as_str());
    proof {
        assert forall|c: char| letter_counts(remaining).count(c) == occurrences(ts, n as int, c) by {
            assert(ts.subrange(0, n as int) =~= ts);
            lemma_occurrences_multiset(ts, n as int, c);
        }
    }
    // First pass: exact matches.
    let mut result: Vec<LetterValidity> = Vec::new();
    let mut i: usize = 0;
    while i < n
        invariant
            gs == g@,
            ts == t@,
            n == gs.len(),
            n == ts.len(),
            i <= n,
            result@.len() == i,
            forall|j: int|
                0 <= j < i ==> result@[j] == (if gs[j] == ts[j] {
                    LetterValidity::Correct
                } else {
                    LetterValidity::Incorrect
                }),
            forall|c: char|
                letter_counts(remaining).count(c) + exact_matches(gs, ts, i as int, c)
                    == occurrences(ts, n as int, c),
        decreases n - i,
    {
        if g[i] == t[i] {
            proof {
                lemma_exact_within_occurrences(gs, ts, i + 1, gs[i as int]);
                lemma_occurrences_monotone(ts, i + 1, n as int, gs[i as int]);
            }
            take_one(&mut remaining, g[i]);
            result.push(LetterValidity::Correct);
        } else {
            result.push(LetterValidity::Incorrect);
        }
        i += 1;
    }
    proof {
        assert forall|c: char| spare(gs, ts, c) >= 0 by {
            lemma_exact_within_occurrences(gs, ts, n as int, c);
        }
    }
    // Second pass: the target's remaining letters go to the other positions.
    let mut i: usize = 0;
    while i < n
        invariant
            gs == g@,
            ts == t@,
            n == gs.len(),
            n == ts.len(),
            i <= n,
            result@.len() == n,
            forall|c: char| spare(gs, ts, c) >= 0,
            forall|j: int| 0 <= j < i ==> result@[j] == validity_at(gs, ts, j),
            forall|j: int|
                i <= j < n ==> result@[j] == (if gs[j] == ts[j] {
                    LetterValidity::Correct
                } else {
                    LetterValidity::Incorrect
                }),
            forall|c: char|
                letter_counts(remaining).count(c) == spare(gs, ts, c) - vstd::math::min(
                    misplaced(gs, ts, i as int, c) as int,
                    spare(gs, ts, c),
                ),
        decreases n - i,
    {
        if result[i] == LetterValidity::Incorrect {
            let c = g[i];
            if count_of(&remaining, c) != 0 {
                result.set(i, LetterValidity::WrongPos);
                take_one(&mut remaining, c);
            }
        }
        i += 1;
    }
    assert(result@ =~= evaluation(gs, ts));
    result
}

} // verus!
