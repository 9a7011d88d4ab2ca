//! Conversions between `String`/`&str` and the character vectors that the
//! rendering and casing engines work on.

use vstd::prelude::*;

verus! {

/// Copies the characters of a string slice into a vector, in order.
pub fn str_to_chars(s: &str) -> (v: Vec<char>)
    ensures
        v@ == s@,
{
    let n = s.unicode_len();
    let mut v: Vec<char> = Vec::new();
    let mut i: usize = 0;
    while i < n
        invariant
            n == s@.len(),
            i <= n,
            v@ == s@.subrange(0, i as int),
        decreases n - i,
    {
        let c = s.get_char(i);
        v.push(c);
        i = i + 1;
        proof {
            assert(v@ =~= s@.subrange(0, i as int));
        }
    }
    proof {
        assert(v@ =~= s@);
    }
    v
}

/// A copy of a character vector.
pub fn copy_chars(v: &Vec<char>) -> (r: Vec<char>)
    ensures
        r@ == v@,
{
    let mut r: Vec<char> = Vec::new();
    let mut i: usize = 0;
    while i < v.len()
        invariant
            i <= v@.len(),
            r@ == v@.subrange(0, i as int),
        decreases v@.len() - i,
    {
        r.push(v[i]);
        i = i + 1;
        proof {
            assert(r@ =~= v@.subrange(0, i as int));
        }
    }
    proof {
        assert(r@ =~= v@);
    }
    r
}

/// Appends one character vector onto another.
pub fn push_onto(dst: &mut Vec<char>, src: &Vec<char>)
    ensures
        final(dst)@ == old(dst)@ + src@,
{
    let ghost base = dst@;
    let mut i: usize = 0;
    while i < src.len()
        invariant
            i <= src@.len(),
            dst@ == base + src@.subrange(0, i as int),
        decreases src@.len() - i,
    {
        dst.push(src[i]);
        i = i + 1;
        proof {
            assert(dst@ =~= base + src@.subrange(0, i as int));
        }
    }
    proof {
        assert(base + src@.subrange(0, src@.len() as int) =~= base + src@);
    }
}

/// Relies on `String`'s `FromIterator` over `char`: collecting an iterator of
/// characters builds the string made of exactly those characters in order.
#[verifier::external_body]
pub fn chars_to_string(v: &Vec<char>) -> (s: String)
    ensures
        s@ == v@,
{
    v.iter().collect()
}

/// A view of a list of character vectors as a sequence of character
/// sequences.
pub open spec fn parts_view(parts: Seq<Vec<char>>) -> Seq<Seq<char>> {
    Seq::new(parts.len(), |i: int| parts[i]@)
}

/// The view of a list has the list's length and views its elements.
pub proof fn lemma_parts_view(parts: Seq<Vec<char>>)
    ensures
        parts_view(parts).len() == parts.len(),
        forall|i: int| 0 <= i < parts.len() ==> parts_view(parts)[i] == #[trigger] parts[i]@,
{
}

} // verus!
