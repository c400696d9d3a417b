//! Scoring a guess against the secret word.

use vstd::prelude::*;

use crate::word::Word;

verus! {

/// The outcome for one letter of a guess.
#[derive(Clone, Copy, Debug, PartialEq, Eq, Structural)]
pub enum Mark {
    /// The secret has this letter at this position.
    Correct,
    /// The secret has this letter, but elsewhere.
    Misplaced,
    /// The secret does not have this letter at all.
    Absent,
}

/// One mark for each position of a guess.
pub type Hint = [Mark; 5];

/// The mark for position `i` of `guess`. A letter of the guess that occurs in
/// the secret is never `Absent`, however often it is repeated in the guess.
pub open spec fn mark_spec(secret: Seq<u8>, guess: Seq<u8>, i: int) -> Mark {
    if guess[i] == secret[i] {
        Mark::Correct
    } else if secret.contains(guess[i]) {
        Mark::Misplaced
    } else {
        Mark::Absent
    }
}

/// The hint for a guess, position by position.
pub open spec fn score_spec(secret: Seq<u8>, guess: Seq<u8>) -> Seq<Mark> {
    Seq::new(5, |i: int| mark_spec(secret, guess, i))
}

/// The hint that says the guess is the secret.
pub open spec fn all_correct() -> Seq<Mark> {
    seq![Mark::Correct, Mark::Correct, Mark::Correct, Mark::Correct, Mark::Correct]
}

fn mark_at(secret: &Word, guess: &Word, i: usize) -> (r: Mark)
    requires
        i < 5,
    ensures
        r == mark_spec(secret@, guess@, i as int),
{
    let g = guess.letter(i);
    if g == secret.letter(i) {
        return Mark::Correct;
    }
    let mut j: usize = 0;
    while j < 5
        invariant
            j <= 5,
            secret@.len() == 5,
            guess@.len() == 5,
            i < 5,
            g == guess@[i as int],
            g != secret@[i as int],
            forall|k: int| 0 <= k < j ==> secret@[k] != g,
        decreases 5 - j,
    {
        if secret.letter(j) == g {
            return Mark::Misplaced;
        }
        j = j + 1;
    }
    Mark::Absent
}

/// Scores `guess` against `secret`.
pub fn score(secret: &Word, guess: &Word) -> (r: Hint)
    ensures
        r@ == score_spec(secret@, guess@),
{
    let r: Hint = [
        mark_at(secret, guess, 0),
        mark_at(secret, guess, 1),
        mark_at(secret, guess, 2),
        mark_at(secret, guess, 3),
        mark_at(secret, guess, 4),
    ];
    assert(r@ =~= score_spec(secret@, guess@));
    r
}

/// Whether every mark of a hint is `Correct`.
pub fn is_solved(hint: &Hint) -> (r: bool)
    ensures
        r == (hint@ == all_correct()),
{
    let r = hint[0] == Mark::Correct && hint[1] == Mark::Correct && hint[2] == Mark::Correct
        && hint[3] == Mark::Correct && hint[4] == Mark::Correct;
    if r {
        assert(hint@ =~= all_correct());
    }
    r
}

/// A position is marked `Correct` exactly when the guess has the secret's
/// letter there.
pub proof fn lemma_correct_iff_same_letter(secret: Seq<u8>, guess: Seq<u8>, i: int)
    requires
        secret.len() == 5,
        guess.len() == 5,
        0 <= i < 5,
    ensures
        score_spec(secret, guess)[i] == Mark::Correct <==> guess[i] == secret[i],
{
}

/// A letter marked `Absent` occurs nowhere in the secret, in particular not at
/// its own position.
pub proof fn lemma_absent_letter_not_in_secret(secret: Seq<u8>, guess: Seq<u8>, i: int)
    requires
        secret.len() == 5,
        guess.len() == 5,
        0 <= i < 5,
        score_spec(secret, guess)[i] == Mark::Absent,
    ensures
        secret[i] != guess[i],
        !secret.contains(guess[i]),
{
}

/// A hint is all `Correct` exactly when the guess is the secret.
pub proof fn lemma_all_correct_iff_secret(secret: Seq<u8>, guess: Seq<u8>)
    requires
        secret.len() == 5,
        guess.len() == 5,
    ensures
        score_spec(secret, guess) == all_correct() <==> guess == secret,
{
    if guess == secret {
        assert(score_spec(secret, guess) =~= all_correct());
    }
    if score_spec(secret, guess) == all_correct() {
        assert forall|i: int| 0 <= i < 5 implies guess[i] == secret[i] by {
            assert(score_spec(secret, guess)[i] == all_correct()[i]);
        }
        assert(guess =~= secret);
    }
}

} // verus!
