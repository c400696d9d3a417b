//! A game: a hidden secret word that scores guesses.

use vstd::prelude::*;

use crate::score::{score, score_spec, Hint};
use crate::word::Word;

verus! {

/// Why a game could not be set up.
#[derive(Clone, Copy, Debug, PartialEq, Eq, Structural)]
pub enum GameError {
    /// There is no word to draw the secret from.
    EmptyDictionary,
}

/// Relies on `rand::random_range`: a draw from the half-open range `0..n`,
/// which it requires to be non-empty.
#[verifier::external_body]
fn random_index(n: usize) -> (r: usize)
    requires
        n > 0,
    ensures
        r < n,
{
    rand::random_range(0..n)
}

/// A game whose secret word stays fixed for its whole life.
pub struct Game {
    secret: Word,
}

impl Game {
    /// The secret word.
    pub closed spec fn secret_spec(&self) -> Word {
        self.secret
    }

    /// A game with the given secret.
    pub fn from_word(word: Word) -> (r: Game)
        ensures
            r.secret_spec() == word,
    {
        Game { secret: word }
    }

    /// A game whose secret is drawn from the dictionary; an empty dictionary
    /// is refused.
    pub fn from_random(dictionary: &[Word]) -> (r: Result<Game, GameError>)
        ensures
            r is Err <==> dictionary@.len() == 0,
            r matches Err(e) ==> e == GameError::EmptyDictionary,
            r matches Ok(g) ==> dictionary@.contains(g.secret_spec()),
    {
        if dictionary.len() == 0 {
            return Err(GameError::EmptyDictionary);
        }
        let i = random_index(dictionary.len());
        let word = dictionary[i];
        assert(dictionary@[i as int] == word);
        Ok(Game::from_word(word))
    }

    /// The secret word.
    pub fn secret(&self) -> (r: Word)
        ensures
            r == self.secret_spec(),
    {
        self.secret
    }

    /// Scores a guess against the secret.
    pub fn guess(&self, guess: Word) -> (r: Hint)
        ensures
            r@ == score_spec(self.secret_spec()@, guess@),
    {
        score(&self.secret, &guess)
    }
}

} // verus!
