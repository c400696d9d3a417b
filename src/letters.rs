//! Small sets of ASCII letters, stored in a fixed-capacity string buffer.

use vstd::prelude::*;

verus! {

/// Room for every distinct ASCII letter, so a set of letters never overflows.
pub const LETTER_CAPACITY: usize = 52;

#[verifier::external_type_specification]
#[verifier::external_body]
pub struct ExArrayString<const CAP: usize>(arrayvec::ArrayString<CAP>);

/// The bytes held by a letter buffer, in the order they were pushed.
pub uninterp spec fn buffer_bytes(s: arrayvec::ArrayString<LETTER_CAPACITY>) -> Seq<u8>;

/// An ASCII letter: `A`..=`Z` or `a`..=`z`.
pub open spec fn is_letter(b: u8) -> bool {
    (65 <= b && b <= 90) || (97 <= b && b <= 122)
}

/// Relies on arrayvec's `ArrayString::new`: the new buffer is empty.
#[verifier::external_body]
fn empty_buffer() -> (r: arrayvec::ArrayString<LETTER_CAPACITY>)
    ensures
        buffer_bytes(r) == Seq::<u8>::empty(),
{
    arrayvec::ArrayString::<LETTER_CAPACITY>::new()
}

/// Relies on `str::contains` with a `char` pattern, through arrayvec's
/// `Deref` to `str`: an ASCII byte occurs in UTF-8 text only as that character.
#[verifier::external_body]
fn buffer_contains(s: &arrayvec::ArrayString<LETTER_CAPACITY>, b: u8) -> (r: bool)
    requires
        b < 128,
    ensures
        r == buffer_bytes(*s).contains(b),
{
    s.contains(char::from(b))
}

/// Relies on arrayvec's `ArrayString::push`: an ASCII character appends its one
/// byte; it panics only when the buffer has no room left.
#[verifier::external_body]
fn buffer_push(s: &mut arrayvec::ArrayString<LETTER_CAPACITY>, b: u8)
    requires
        b < 128,
        buffer_bytes(*old(s)).len() < LETTER_CAPACITY,
    ensures
        buffer_bytes(*final(s)) == buffer_bytes(*old(s)).push(b),
{
    s.push(char::from(b))
}

/// A set of ASCII letters, each held once, in the order of first insertion.
pub struct LetterSet {
    buf: arrayvec::ArrayString<LETTER_CAPACITY>,
}

impl LetterSet {
    /// The letters of the set, in insertion order.
    pub closed spec fn view(&self) -> Seq<u8> {
        buffer_bytes(self.buf)
    }

    /// Every entry is a letter and no letter is held twice.
    pub closed spec fn wf(&self) -> bool {
        &&& self@.no_duplicates()
        &&& forall|i: int| 0 <= i < self@.len() ==> is_letter(#[trigger] self@[i])
    }

    pub fn new() -> (r: LetterSet)
        ensures
            r.wf(),
            r@ == Seq::<u8>::empty(),
    {
        LetterSet { buf: empty_buffer() }
    }

    pub fn contains(&self, b: u8) -> (r: bool)
        requires
            self.wf(),
        ensures
            r == self@.contains(b),
    {
        if b < 128 {
            buffer_contains(&self.buf, b)
        } else {
            proof {
                if self@.contains(b) {
                    let i = choose|i: int| 0 <= i < self@.len() && self@[i] == b;
                    assert(is_letter(self@[i]));
                }
            }
            false
        }
    }

    /// Adds a letter unless it is already present.
    pub fn insert(&mut self, b: u8)
        requires
            old(self).wf(),
            is_letter(b),
        ensures
            final(self).wf(),
            old(self)@.contains(b) ==> final(self)@ == old(self)@,
            !old(self)@.contains(b) ==> final(self)@ == old(self)@.push(b),
    {
        if !self.contains(b) {
            proof {
                let grown = self@.push(b);
                assert forall|i: int| 0 <= i < grown.len() implies is_letter(#[trigger] grown[i]) by {
                    if i < self@.len() {
                        assert(grown[i] == self@[i]);
                    }
                }
                lemma_distinct_letters_fit(grown);
            }
            buffer_push(&mut self.buf, b);
            assert(self@.no_duplicates());
        }
    }
}

/// A sequence of distinct letters has at most as many entries as there are
/// ASCII letters.
proof fn lemma_distinct_letters_fit(s: Seq<u8>)
    requires
        s.no_duplicates(),
        forall|i: int| 0 <= i < s.len() ==> is_letter(#[trigger] s[i]),
    ensures
        s.len() <= LETTER_CAPACITY,
{
    let t = s.map_values(|b: u8| b as int);
    assert(t.no_duplicates()) by {
        assert forall|i: int, j: int| 0 <= i < t.len() && 0 <= j < t.len() && i != j
            implies t[i] != t[j] by {
            assert(s[i] != s[j]);
        }
    }
    t.unique_seq_to_set();
    let upper = vstd::set_lib::set_int_range(65, 91);
    let lower = vstd::set_lib::set_int_range(97, 123);
    vstd::set_lib::lemma_int_range(65, 91);
    vstd::set_lib::lemma_int_range(97, 123);
    vstd::set_lib::lemma_len_union(upper, lower);
    assert(t.to_set().subset_of(upper + lower)) by {
        assert forall|x: int| t.to_set().contains(x) implies (upper + lower).contains(x) by {
            let i = choose|i: int| 0 <= i < t.len() && t[i] == x;
            assert(is_letter(s[i]));
        }
    }
    vstd::set_lib::lemma_len_subset(t.to_set(), upper + lower);
}

} // verus!
