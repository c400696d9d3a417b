//! The solver: guess, score, narrow the candidates, and guess again.

use vstd::prelude::*;

use crate::constraints::{consistent_spec, empty_view, observe_spec, ConstraintSet, ConstraintView};
use crate::game::Game;
use crate::score::{is_solved, lemma_all_correct_iff_secret, score_spec};
use crate::word::Word;

verus! {

/// The number of rounds after which the solver gives up.
pub const MAX_GUESSES: usize = 15000;

/// Why the solver stopped without an answer.
#[derive(Clone, Copy, Debug, PartialEq, Eq, Structural)]
pub enum SolveError {
    /// The hints ruled out every remaining candidate, so there is no next guess.
    NoCandidates,
}

/// The opening guess, "crane".
pub open spec fn opening_guess() -> Seq<u8> {
    seq![99u8, 114u8, 97u8, 110u8, 101u8]
}

/// A candidate survives when it is not the guess just made and agrees with
/// what is known.
pub open spec fn survives(cs: ConstraintView, guess: Seq<u8>) -> spec_fn(Word) -> bool {
    |w: Word| w@ != guess && consistent_spec(cs, w@)
}

/// The candidates that survive, in the order they came.
pub open spec fn narrow_spec(cands: Seq<Word>, cs: ConstraintView, guess: Seq<u8>) -> Seq<Word> {
    cands.filter(survives(cs, guess))
}

/// The outcome of the rounds from `round` on, with `guess` about to be scored:
/// the word and attempt count on success, the budget when it runs out first,
/// or an error when no candidate is left to guess.
pub open spec fn run(
    secret: Seq<u8>,
    cands: Seq<Word>,
    cs: ConstraintView,
    guess: Seq<u8>,
    round: nat,
    budget: nat,
) -> Result<(Seq<u8>, nat), SolveError>
    decreases budget - round,
{
    if round >= budget {
        Ok((guess, budget))
    } else if guess == secret {
        Ok((guess, round))
    } else {
        let cs2 = observe_spec(cs, score_spec(secret, guess), guess);
        let next = narrow_spec(cands, cs2, guess);
        if next.len() == 0 {
            Err(SolveError::NoCandidates)
        } else {
            run(secret, next, cs2, next[0]@, round + 1, budget)
        }
    }
}

/// The outcome of a whole session on a secret and a dictionary.
pub open spec fn solve_spec(secret: Seq<u8>, dictionary: Seq<Word>, budget: nat) -> Result<(Seq<u8>, nat), SolveError> {
    run(secret, dictionary, empty_view(), opening_guess(), 1, budget)
}

/// The view of a solver's result.
pub open spec fn outcome_view(r: Result<(Word, usize), SolveError>) -> Result<(Seq<u8>, nat), SolveError> {
    match r {
        Ok((w, n)) => Ok((w@, n as nat)),
        Err(e) => Err(e),
    }
}

/// The candidates that are not `guess` and are consistent with `cs`, in order.
pub fn narrow(cands: &Vec<Word>, cs: &ConstraintSet, guess: &Word) -> (r: Vec<Word>)
    requires
        cs.wf(),
    ensures
        r@ == narrow_spec(cands@, cs@, guess@),
{
    let ghost keep = survives(cs@, guess@);
    let mut out: Vec<Word> = Vec::new();
    let mut i: usize = 0;
    while i < cands.len()
        invariant
            i <= cands@.len(),
            cs.wf(),
            keep == survives(cs@, guess@),
            out@ == cands@.subrange(0, i as int).filter(keep),
        decreases cands@.len() - i,
    {
        let w = cands[i];
        proof {
            assert(cands@.subrange(0, i + 1) =~= cands@.subrange(0, i as int).push(w));
            cands@.subrange(0, i as int).lemma_filter_push(w, keep);
        }
        if !w.same_as(guess) && cs.is_consistent(&w) {
            out.push(w);
        }
        i = i + 1;
    }
    assert(cands@.subrange(0, cands@.len() as int) =~= cands@);
    out
}

/// A solving session in progress: the candidates left, what the hints have
/// taught so far, the next guess and the round it will be scored in.
pub struct Session {
    game: Game,
    candidates: Vec<Word>,
    constraints: ConstraintSet,
    guess: Word,
    round: usize,
    budget: usize,
}

impl Session {
    /// The session's state is well formed.
    pub closed spec fn wf(&self) -> bool {
        &&& self.constraints.wf()
        &&& 1 <= self.round
        &&& self.game.secret_spec()@.len() == 5
    }

    /// How the session ends if it is stepped to its end from here.
    pub closed spec fn outcome(&self) -> Result<(Seq<u8>, nat), SolveError> {
        run(
            self.game.secret_spec()@,
            self.candidates@,
            self.constraints@,
            self.guess@,
            self.round as nat,
            self.budget as nat,
        )
    }

    /// The round the next guess will be scored in.
    pub closed spec fn round_spec(&self) -> nat {
        self.round as nat
    }

    /// The number of rounds allowed.
    pub closed spec fn budget_spec(&self) -> nat {
        self.budget as nat
    }

    /// What the hints have taught so far.
    pub closed spec fn constraints_spec(&self) -> ConstraintView {
        self.constraints@
    }

    /// The next guess.
    pub closed spec fn guess_spec(&self) -> Seq<u8> {
        self.guess@
    }

    /// The remaining candidates.
    pub closed spec fn candidates_spec(&self) -> Seq<Word> {
        self.candidates@
    }

    /// A session on `game` that starts from "crane" with every word of the
    /// dictionary still a candidate.
    pub fn new(game: Game, dictionary: Vec<Word>, budget: usize) -> (r: Session)
        ensures
            r.wf(),
            r.outcome() == solve_spec(game.secret_spec()@, dictionary@, budget as nat),
            r.round_spec() == 1,
            r.budget_spec() == budget,
            r.candidates_spec() == dictionary@,
            r.constraints_spec() == empty_view(),
            r.guess_spec() == opening_guess(),
    {
        proof {
            Word::lemma_len(game.secret_spec());
        }
        Session {
            game,
            candidates: dictionary,
            constraints: ConstraintSet::new(),
            guess: Word::crane(),
            round: 1,
            budget,
        }
    }

    /// The number of candidates left.
    pub fn candidate_count(&self) -> (r: usize)
        ensures
            r == self.candidates_spec().len(),
    {
        self.candidates.len()
    }

    /// Plays one round. `None` means the session goes on, one round later and
    /// with the same outcome ahead; otherwise the session's outcome is returned.
    pub fn step(&mut self) -> (r: Option<Result<(Word, usize), SolveError>>)
        requires
            old(self).wf(),
        ensures
            final(self).wf(),
            final(self).budget_spec() == old(self).budget_spec(),
            r is None ==> final(self).outcome() == old(self).outcome() && final(self).round_spec()
                == old(self).round_spec() + 1 && old(self).round_spec() < old(self).budget_spec()
                && final(self).candidates_spec() == narrow_spec(
                old(self).candidates_spec(),
                final(self).constraints_spec(),
                old(self).guess_spec(),
            ),
            r is None ==> final(self).candidates_spec().len() <= old(self).candidates_spec().len(),
            r matches Some(x) ==> outcome_view(x) == old(self).outcome(),
    {
        if self.round >= self.budget {
            return Some(Ok((self.guess, self.budget)));
        }
        let hint = self.game.guess(self.guess);
        proof {
            Word::lemma_len(self.guess);
            lemma_all_correct_iff_secret(self.game.secret_spec()@, self.guess@);
        }
        if is_solved(&hint) {
            return Some(Ok((self.guess, self.round)));
        }
        self.constraints.observe(&hint, &self.guess);
        let next = narrow(&self.candidates, &self.constraints, &self.guess);
        proof {
            lemma_narrow_shrinks(self.candidates@, self.constraints@, self.guess@);
        }
        if next.len() == 0 {
            return Some(Err(SolveError::NoCandidates));
        }
        self.guess = next[0];
        self.candidates = next;
        self.round = self.round + 1;
        None
    }
}

/// Plays a session with at most `budget - 1` scored guesses, starting from
/// "crane" and always guessing the first surviving candidate next.
pub fn solve_with_budget(game: Game, dictionary: Vec<Word>, budget: usize) -> (r: Result<(Word, usize), SolveError>)
    ensures
        outcome_view(r) == solve_spec(game.secret_spec()@, dictionary@, budget as nat),
{
    let mut session = Session::new(game, dictionary, budget);
    loop
        invariant
            session.wf(),
            session.outcome() == solve_spec(game.secret_spec()@, dictionary@, budget as nat),
            session.budget_spec() == budget,
        decreases budget - session.round_spec(),
    {
        if let Some(r) = session.step() {
            return r;
        }
    }
}

/// Plays a session within the standard budget of `MAX_GUESSES` rounds.
pub fn solve(game: Game, dictionary: Vec<Word>) -> (r: Result<(Word, usize), SolveError>)
    ensures
        outcome_view(r) == solve_spec(game.secret_spec()@, dictionary@, MAX_GUESSES as nat),
{
    solve_with_budget(game, dictionary, MAX_GUESSES)
}

/// Narrowing never adds a word: the survivors are at most as many as the
/// candidates, each of them one of the candidates, and the guess just made is
/// never among them.
pub proof fn lemma_narrow_shrinks(cands: Seq<Word>, cs: ConstraintView, guess: Seq<u8>)
    ensures
        narrow_spec(cands, cs, guess).len() <= cands.len(),
        forall|i: int|
            0 <= i < narrow_spec(cands, cs, guess).len() ==> cands.contains(
                #[trigger] narrow_spec(cands, cs, guess)[i],
            ),
        forall|i: int|
            0 <= i < narrow_spec(cands, cs, guess).len() ==> (#[trigger] narrow_spec(cands, cs, guess)[i])@
                != guess,
{
    broadcast use vstd::seq_lib::group_filter_ensures;

    cands.lemma_filter_len(survives(cs, guess));
    assert forall|i: int| 0 <= i < narrow_spec(cands, cs, guess).len() implies cands.contains(
        #[trigger] narrow_spec(cands, cs, guess)[i],
    ) by {
        let n = narrow_spec(cands, cs, guess);
        assert(n.contains(n[i]));
        cands.lemma_filter_contains_rev(survives(cs, guess), n[i]);
    }
}

proof fn lemma_run_outcome(
    secret: Seq<u8>,
    cands: Seq<Word>,
    cs: ConstraintView,
    guess: Seq<u8>,
    round: nat,
    budget: nat,
)
    ensures
        run(secret, cands, cs, guess, round, budget) matches Ok((w, n)) ==> n == budget || (w
            == secret && round <= n < budget),
    decreases budget - round,
{
    if round < budget && guess != secret {
        let cs2 = observe_spec(cs, score_spec(secret, guess), guess);
        let next = narrow_spec(cands, cs2, guess);
        if next.len() != 0 {
            lemma_run_outcome(secret, next, cs2, next[0]@, round + 1, budget);
        }
    }
}

/// A session that ends without an error either found the secret, after fewer
/// attempts than the budget, or ran out of budget and reports exactly the
/// budget as its attempt count.
pub proof fn lemma_solve_outcome(secret: Seq<u8>, dictionary: Seq<Word>, budget: nat)
    ensures
        solve_spec(secret, dictionary, budget) matches Ok((w, n)) ==> n == budget || (w == secret
            && 1 <= n < budget),
{
    lemma_run_outcome(secret, dictionary, empty_view(), opening_guess(), 1, budget);
}

} // verus!
