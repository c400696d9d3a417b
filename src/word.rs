//! Five-letter words.

use vstd::prelude::*;

use vstd::string::StringSliceAdditionalSpecFns;

use crate::letters::is_letter;

verus! {

/// The number of letters in every word.
pub const WORD_LEN: usize = 5;

/// Text that makes a word: exactly five ASCII letters.
pub open spec fn is_word_text(b: Seq<u8>) -> bool {
    &&& b.len() == 5
    &&& forall|i: int| 0 <= i < 5 ==> is_letter(#[trigger] b[i])
}

/// A word of exactly five ASCII letters, compared byte by byte.
#[derive(Clone, Copy, Debug, PartialEq, Eq)]
pub struct Word {
    bytes: [u8; 5],
}

impl View for Word {
    type V = Seq<u8>;

    closed spec fn view(&self) -> Seq<u8> {
        self.bytes@
    }
}

impl Word {
    #[verifier::type_invariant]
    spec fn letters_only(self) -> bool {
        is_word_text(self.bytes@)
    }

    /// A word's view holds five bytes.
    pub proof fn lemma_len(w: Word)
        ensures
            w@.len() == 5,
    {
    }

    /// Reads a word from one line of text; anything but five ASCII letters is
    /// refused.
    pub fn parse(line: &str) -> (r: Option<Word>)
        ensures
            r is Some <==> is_word_text(line.spec_bytes()),
            r matches Some(w) ==> w@ == line.spec_bytes(),
    {
        let b = line.as_bytes();
        if b.len() != WORD_LEN {
            return None;
        }
        let mut i: usize = 0;
        while i < WORD_LEN
            invariant
                b@ == line.spec_bytes(),
                b@.len() == 5,
                i <= 5,
                forall|j: int| 0 <= j < i ==> is_letter(#[trigger] b@[j]),
            decreases 5 - i,
        {
            let c = b[i];
            if !((65 <= c && c <= 90) || (97 <= c && c <= 122)) {
                return None;
            }
            i = i + 1;
        }
        let bytes: [u8; 5] = [b[0], b[1], b[2], b[3], b[4]];
        assert(bytes@ =~= b@);
        Some(Word { bytes })
    }

    /// The letter at a position.
    pub fn letter(&self, i: usize) -> (r: u8)
        requires
            i < 5,
        ensures
            r == self@[i as int],
            is_letter(r),
            is_word_text(self@),
    {
        proof {
            use_type_invariant(self);
        }
        self.bytes[i]
    }

    /// The five letters as bytes.
    pub fn bytes(&self) -> (r: [u8; 5])
        ensures
            r@ == self@,
    {
        self.bytes
    }

    /// Whether two words have the same letters at every position.
    pub fn same_as(&self, other: &Word) -> (r: bool)
        ensures
            r == (self@ == other@),
    {
        let r = self.bytes[0] == other.bytes[0] && self.bytes[1] == other.bytes[1]
            && self.bytes[2] == other.bytes[2] && self.bytes[3] == other.bytes[3]
            && self.bytes[4] == other.bytes[4];
        if r {
            assert(self@ =~= other@);
        }
        r
    }

    /// The word "crane".
    pub fn crane() -> (r: Word)
        ensures
            r@ == seq![99u8, 114u8, 97u8, 110u8, 101u8],
    {
        let bytes: [u8; 5] = [99u8, 114u8, 97u8, 110u8, 101u8];
        assert(bytes@ =~= seq![99u8, 114u8, 97u8, 110u8, 101u8]);
        Word { bytes }
    }
}

/// The texts of the lines that make words, in their order.
pub open spec fn word_texts(lines: Seq<&str>) -> Seq<Seq<u8>> {
    lines.map_values(|l: &str| l.spec_bytes()).filter(|b: Seq<u8>| is_word_text(b))
}

/// Reads a dictionary, one word per line, silently dropping every line that is
/// not a word and keeping the order of the rest.
pub fn words_from_lines(lines: &Vec<&str>) -> (r: Vec<Word>)
    ensures
        r@.map_values(|w: Word| w@) == word_texts(lines@),
{
    let ghost keep = |b: Seq<u8>| is_word_text(b);
    let ghost text = |l: &str| l.spec_bytes();
    let mut out: Vec<Word> = Vec::new();
    let mut i: usize = 0;
    while i < lines.len()
        invariant
            i <= lines@.len(),
            keep == (|b: Seq<u8>| is_word_text(b)),
            text == (|l: &str| l.spec_bytes()),
            out@.map_values(|w: Word| w@) == lines@.subrange(0, i as int).map_values(text).filter(keep),
        decreases lines@.len() - i,
    {
        let ghost seen = lines@.subrange(0, i as int).map_values(text);
        proof {
            assert(lines@.subrange(0, i + 1).map_values(text) =~= seen.push(lines@[i as int].spec_bytes()));
            seen.lemma_filter_push(lines@[i as int].spec_bytes(), keep);
        }
        let parsed = Word::parse(lines[i]);
        if let Some(w) = parsed {
            let ghost before = out@;
            out.push(w);
            assert(out@.map_values(|w: Word| w@) =~= before.map_values(|w: Word| w@).push(w@));
        }
        i = i + 1;
    }
    assert(lines@.subrange(0, lines@.len() as int) =~= lines@);
    out
}

} // verus!
