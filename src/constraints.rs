//! What the hints received so far say about the secret word.

use vstd::prelude::*;

use crate::letters::{is_letter, LetterSet};
use crate::score::{Hint, Mark};
use crate::word::Word;

verus! {

/// What is known of the secret's letter at one position.
#[derive(Clone, Copy, Debug, PartialEq, Eq, Structural)]
pub enum Slot {
    /// The secret has this letter here.
    Known(u8),
    /// Nothing is certain yet.
    Unknown,
}

/// The knowledge of a constraint set: a slot per position, the letters known
/// to occur in the secret, and the letters known not to.
pub ghost struct ConstraintView {
    pub positions: Seq<Slot>,
    pub required: Set<u8>,
    pub excluded: Set<u8>,
}

/// The slot after a mark: only a `Correct` mark on an unknown slot fixes it.
pub open spec fn observed_slot(slot: Slot, m: Mark, g: u8) -> Slot {
    if m == Mark::Correct && slot == Slot::Unknown {
        Slot::Known(g)
    } else {
        slot
    }
}

/// Whether a mark on a slot records its letter as occurring in the secret.
pub open spec fn records_required(slot: Slot, m: Mark) -> bool {
    (m == Mark::Correct && slot == Slot::Unknown) || m == Mark::Misplaced
}

/// The knowledge after folding in the marks of the first `n` positions.
pub open spec fn observe_upto(cs: ConstraintView, hint: Seq<Mark>, guess: Seq<u8>, n: int) -> ConstraintView {
    ConstraintView {
        positions: Seq::new(
            5,
            |k: int|
                if k < n {
                    observed_slot(cs.positions[k], hint[k], guess[k])
                } else {
                    cs.positions[k]
                },
        ),
        required: cs.required.union(
            Set::new(
                |b: u8|
                    exists|k: int|
                        0 <= k < n && records_required(cs.positions[k], hint[k]) && #[trigger] guess[k]
                            == b,
            ),
        ),
        excluded: cs.excluded.union(
            Set::new(|b: u8| exists|k: int| 0 <= k < n && hint[k] == Mark::Absent && #[trigger] guess[k] == b),
        ),
    }
}

/// The knowledge after a guess and its hint.
pub open spec fn observe_spec(cs: ConstraintView, hint: Seq<Mark>, guess: Seq<u8>) -> ConstraintView {
    observe_upto(cs, hint, guess, 5)
}

/// Whether a letter may stand under a slot.
pub open spec fn slot_admits(slot: Slot, b: u8) -> bool {
    match slot {
        Slot::Known(c) => b == c,
        Slot::Unknown => true,
    }
}

/// A word is consistent when none of its letters is excluded and it agrees
/// with every known position. The required letters are not consulted.
pub open spec fn consistent_spec(cs: ConstraintView, w: Seq<u8>) -> bool {
    forall|i: int|
        0 <= i < 5 ==> !cs.excluded.contains(#[trigger] w[i]) && slot_admits(cs.positions[i], w[i])
}

/// The knowledge before any hint: no position known, no letter recorded.
pub open spec fn empty_view() -> ConstraintView {
    ConstraintView {
        positions: Seq::new(5, |k: int| Slot::Unknown),
        required: Set::empty(),
        excluded: Set::empty(),
    }
}

/// Accumulated knowledge about the secret word.
pub struct ConstraintSet {
    positions: [Slot; 5],
    required: LetterSet,
    excluded: LetterSet,
}

impl View for ConstraintSet {
    type V = ConstraintView;

    closed spec fn view(&self) -> ConstraintView {
        ConstraintView {
            positions: self.positions@,
            required: self.required@.to_set(),
            excluded: self.excluded@.to_set(),
        }
    }
}

impl ConstraintSet {
    /// Both letter sets are well formed.
    pub closed spec fn wf(&self) -> bool {
        self.required.wf() && self.excluded.wf()
    }

    /// A set that knows nothing yet.
    pub fn new() -> (r: ConstraintSet)
        ensures
            r.wf(),
            r@ == empty_view(),
    {
        let r = ConstraintSet {
            positions: [Slot::Unknown, Slot::Unknown, Slot::Unknown, Slot::Unknown, Slot::Unknown],
            required: LetterSet::new(),
            excluded: LetterSet::new(),
        };
        assert(r@.positions =~= empty_view().positions);
        assert(r@.required =~= Set::empty());
        assert(r@.excluded =~= Set::empty());
        r
    }

    /// Records a letter as occurring in the secret.
    fn require(&mut self, b: u8)
        requires
            old(self).wf(),
            is_letter(b),
        ensures
            final(self).wf(),
            final(self)@ == (ConstraintView { required: old(self)@.required.insert(b), ..old(self)@ }),
    {
        self.required.insert(b);
        proof {
            old(self).required@.lemma_push_to_set_commute(b);
        }
        assert(self.required@.to_set() =~= old(self).required@.to_set().insert(b));
    }

    /// Records a letter as absent from the secret.
    fn exclude(&mut self, b: u8)
        requires
            old(self).wf(),
            is_letter(b),
        ensures
            final(self).wf(),
            final(self)@ == (ConstraintView { excluded: old(self)@.excluded.insert(b), ..old(self)@ }),
    {
        self.excluded.insert(b);
        proof {
            old(self).excluded@.lemma_push_to_set_commute(b);
        }
        assert(self.excluded@.to_set() =~= old(self).excluded@.to_set().insert(b));
    }

    /// Folds the hint for `guess` into what is known.
    pub fn observe(&mut self, hint: &Hint, guess: &Word)
        requires
            old(self).wf(),
        ensures
            final(self).wf(),
            final(self)@ == observe_spec(old(self)@, hint@, guess@),
    {
        let ghost start = self@;
        proof {
            Word::lemma_len(*guess);
            let zero = observe_upto(start, hint@, guess@, 0);
            assert(zero.positions =~= start.positions);
            assert(zero.required =~= start.required);
            assert(zero.excluded =~= start.excluded);
        }
        let mut i: usize = 0;
        while i < 5
            invariant
                i <= 5,
                self.wf(),
                start.positions.len() == 5,
                guess@.len() == 5,
                self@ == observe_upto(start, hint@, guess@, i as int),
            decreases 5 - i,
        {
            let g = guess.letter(i);
            let ghost before = self@;
            match (self.positions[i], hint[i]) {
                (Slot::Known(_), Mark::Correct) => {},
                (Slot::Unknown, Mark::Correct) => {
                    self.positions[i] = Slot::Known(g);
                    self.require(g);
                },
                (_, Mark::Misplaced) => {
                    self.require(g);
                },
                (_, Mark::Absent) => {
                    self.exclude(g);
                },
            }
            let ghost next = observe_upto(start, hint@, guess@, i + 1);
            assert(self@.positions =~= next.positions);
            assert(self@.required =~= next.required) by {
                assert forall|b: u8| #[trigger] next.required.contains(b) implies self@.required.contains(b) by {
                    if !before.required.contains(b) {
                        let k = choose|k: int|
                            0 <= k < i + 1 && records_required(start.positions[k], hint@[k]) && #[trigger] guess@[k] == b;
                        assert(k == i);
                    }
                }
            }
            assert(self@.excluded =~= next.excluded) by {
                assert forall|b: u8| #[trigger] next.excluded.contains(b) implies self@.excluded.contains(b) by {
                    if !before.excluded.contains(b) {
                        let k = choose|k: int| 0 <= k < i + 1 && hint@[k] == Mark::Absent && #[trigger] guess@[k] == b;
                        assert(k == i);
                    }
                }
            }
            i = i + 1;
        }
    }

    /// Whether a candidate word agrees with everything known.
    pub fn is_consistent(&self, w: &Word) -> (r: bool)
        requires
            self.wf(),
        ensures
            r == consistent_spec(self@, w@),
    {
        let mut i: usize = 0;
        while i < 5
            invariant
                i <= 5,
                self.wf(),
                forall|k: int| 0 <= k < i ==> !self@.excluded.contains(#[trigger] w@[k]) && slot_admits(self@.positions[k], w@[k]),
            decreases 5 - i,
        {
            let c = w.letter(i);
            let excluded = self.excluded.contains(c);
            let known = match self.positions[i] {
                Slot::Known(b) => c == b,
                Slot::Unknown => true,
            };
            if excluded || !known {
                return false;
            }
            i = i + 1;
        }
        true
    }
}

/// After a `Correct` mark at position `i`, every candidate with another letter
/// there is rejected; this needs the slot to be unknown or already hold the
/// guessed letter.
pub proof fn lemma_correct_mark_pins_letter(
    cs: ConstraintView,
    hint: Seq<Mark>,
    guess: Seq<u8>,
    i: int,
    w: Seq<u8>,
)
    requires
        cs.positions.len() == 5,
        hint.len() == 5,
        guess.len() == 5,
        w.len() == 5,
        0 <= i < 5,
        hint[i] == Mark::Correct,
        cs.positions[i] == Slot::Unknown || cs.positions[i] == Slot::Known(guess[i]),
        w[i] != guess[i],
    ensures
        !consistent_spec(observe_spec(cs, hint, guess), w),
{
    assert(observe_spec(cs, hint, guess).positions[i] == Slot::Known(guess[i]));
    assert(!slot_admits(observe_spec(cs, hint, guess).positions[i], w[i]));
}

/// A candidate with an excluded letter at any position is rejected, whether or
/// not that letter is also recorded as required.
pub proof fn lemma_excluded_letter_rejects(cs: ConstraintView, w: Seq<u8>, i: int)
    requires
        0 <= i < 5,
        cs.excluded.contains(w[i]),
    ensures
        !consistent_spec(cs, w),
{
}

} // verus!
