//! Text of bounded size.
//!
//! The text of a classified type is held in a `heapless::String` of 128
//! bytes, so that classifying allocates nothing and a type whose text does not
//! fit is reported instead of cut.

use vstd::prelude::*;
use vstd::string::*;
use crate::text::{concat, lemma_concat_prefix_len, lemma_utf8_len_concat, utf8_len};

verus! {

/// The number of bytes that a bounded text can hold.
pub const CAPACITY: usize = 128;

/// A `heapless::String` with room for `CAPACITY` bytes. Verus sees nothing of
/// the value but what the functions below state of `bounded_text`.
#[verifier::external_body]
#[derive(Debug)]
pub struct BoundedString {
    inner: heapless::String<heapless::consts::U128>,
}

/// The characters that the bounded text holds.
pub uninterp spec fn bounded_text(s: BoundedString) -> Seq<char>;

impl View for BoundedString {
    type V = Seq<char>;

    open spec fn view(&self) -> Seq<char> {
        bounded_text(*self)
    }
}

/// `heapless::String::new`: the result holds no character.
#[verifier::external_body]
fn bounded_new() -> (s: BoundedString)
    ensures
        bounded_text(s) == Seq::<char>::empty(),
{
    BoundedString { inner: heapless::String::new() }
}

/// `heapless::String::push_str`: where the bytes held and the bytes of `t`
/// together are within the capacity, `t` is appended and the call succeeds;
/// otherwise the text is left as it was and the call fails.
#[verifier::external_body]
fn bounded_push_str(s: &mut BoundedString, t: &str) -> (fit: bool)
    ensures
        fit == (utf8_len(bounded_text(*old(s))) + utf8_len(t@) <= CAPACITY),
        fit ==> bounded_text(*final(s)) == bounded_text(*old(s)) + t@,
        !fit ==> bounded_text(*final(s)) == bounded_text(*old(s)),
{
    s.inner.push_str(t).is_ok()
}

/// `heapless::String::as_str`: the text held, as a string slice.
#[verifier::external_body]
fn bounded_as_str(s: &BoundedString) -> (t: &str)
    ensures
        t@ == bounded_text(*s),
{
    s.inner.as_str()
}

/// The text, where it fits into a bounded text.
pub open spec fn bounded(text: Seq<char>) -> Option<Seq<char>> {
    if utf8_len(text) <= CAPACITY {
        Some(text)
    } else {
        None
    }
}

/// The texts of the string slices.
pub open spec fn texts(parts: Seq<&str>) -> Seq<Seq<char>> {
    Seq::new(parts.len(), |i: int| parts[i]@)
}

impl BoundedString {
    /// A text without characters.
    pub fn new() -> (s: BoundedString)
        ensures
            s@ == Seq::<char>::empty(),
    {
        bounded_new()
    }

    /// The text held.
    pub fn as_str(&self) -> (t: &str)
        ensures
            t@ == self@,
    {
        bounded_as_str(self)
    }

    /// Whether the text holds no character.
    pub fn is_empty(&self) -> (empty: bool)
        ensures
            empty == (self@.len() == 0),
    {
        bounded_as_str(self).unicode_len() == 0
    }

    /// The parts one after the other as one bounded text; `None` where they
    /// take more bytes than the capacity.
    pub fn concat(parts: &Vec<&str>) -> (s: Option<BoundedString>)
        ensures
            s is Some == bounded(concat(texts(parts@))) is Some,
            s is Some ==> s.unwrap()@ == concat(texts(parts@)),
    {
        let ghost all = texts(parts@);
        let mut s = bounded_new();
        let mut i: usize = 0;
        assert(all.subrange(0, 0) =~= Seq::<Seq<char>>::empty());
        while i < parts.len()
            invariant
                i <= parts.len(),
                all == texts(parts@),
                s@ == concat(all.subrange(0, i as int)),
                utf8_len(s@) <= CAPACITY,
            decreases parts.len() - i,
        {
            let fit = bounded_push_str(&mut s, parts[i]);
            proof {
                assert(all.subrange(0, i + 1).drop_last() =~= all.subrange(0, i as int));
                assert(all.subrange(0, i + 1).last() == parts@[i as int]@);
                lemma_utf8_len_concat(concat(all.subrange(0, i as int)), parts@[i as int]@);
                lemma_concat_prefix_len(all, i + 1);
            }
            if !fit {
                return None;
            }
            i = i + 1;
        }
        assert(all.subrange(0, parts.len() as int) =~= all);
        Some(s)
    }
}

} // verus!
