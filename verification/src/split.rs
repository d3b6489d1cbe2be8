//! Cutting a sequence at every occurrence of a separator.

use crate::text::views;
use vstd::prelude::*;

verus! {

/// The pieces of `s` between occurrences of `sep`, in order.
///
/// There is one more piece than there are separators: two separators in a row,
/// or one at either end, give an empty piece.
pub open spec fn split_on<T>(s: Seq<T>, sep: T) -> Seq<Seq<T>>
    decreases s.len(),
{
    if s.len() == 0 {
        seq![Seq::<T>::empty()]
    } else {
        let before = split_on(s.drop_last(), sep);
        if s.last() == sep {
            before.push(Seq::<T>::empty())
        } else {
            before.drop_last().push(before.last().push(s.last()))
        }
    }
}

/// A split always yields at least one piece.
pub proof fn lemma_split_len<T>(s: Seq<T>, sep: T)
    ensures
        split_on(s, sep).len() >= 1,
    decreases s.len(),
{
    if s.len() > 0 {
    }
}

/// How a split grows when one more element is appended to the input.
pub proof fn lemma_split_push<T>(s: Seq<T>, x: T, sep: T)
    ensures
        split_on(s, sep).len() >= 1,
        x == sep ==> split_on(s.push(x), sep) == split_on(s, sep).push(Seq::<T>::empty()),
        x != sep ==> split_on(s.push(x), sep) == split_on(s, sep).drop_last().push(
            split_on(s, sep).last().push(x),
        ),
{
    assert(s.push(x).drop_last() =~= s);
}

/// The pieces of two sequences with a separator between them are the pieces of
/// the first followed by the pieces of the second.
pub proof fn lemma_split_concat<T>(a: Seq<T>, b: Seq<T>, sep: T)
    ensures
        split_on(a.push(sep) + b, sep) == split_on(a, sep) + split_on(b, sep),
    decreases b.len(),
{
    let whole = a.push(sep) + b;
    if b.len() == 0 {
        lemma_split_push(a, sep, sep);
    } else {
        let front = b.drop_last();
        lemma_split_concat(a, front, sep);
        assert(whole =~= (a.push(sep) + front).push(b.last()));
        lemma_split_push(a.push(sep) + front, b.last(), sep);
        let left = split_on(a, sep);
        let right = split_on(front, sep);
        if b.last() == sep {
            assert((left + right).push(Seq::<T>::empty()) =~= left + right.push(
                Seq::<T>::empty(),
            ));
        }
    }
}

/// Cuts a byte string at every `sep`.
pub fn split_bytes(s: &[u8], sep: u8) -> (parts: Vec<Vec<u8>>)
    ensures
        views(parts@) == split_on(s@, sep),
{
    let mut parts: Vec<Vec<u8>> = Vec::new();
    let mut piece: Vec<u8> = Vec::new();
    let mut i: usize = 0;
    while i < s.len()
        invariant
            i <= s.len(),
            views(parts@).push(piece@) == split_on(s@.take(i as int), sep),
        decreases s.len() - i,
    {
        let b: u8 = s[i];
        proof {
            lemma_split_push(s@.take(i as int), b, sep);
            assert(s@.take(i as int).push(b) =~= s@.take(i + 1));
        }
        if b == sep {
            parts.push(piece);
            piece = Vec::new();
        } else {
            piece.push(b);
        }
        i += 1;
    }
    assert(s@.take(i as int) =~= s@);
    parts.push(piece);
    parts
}

/// Cuts a text at every `sep`.
pub fn split_text(s: &str, sep: char) -> (parts: Vec<String>)
    ensures
        views(parts@) == split_on(s@, sep),
{
    let mut parts: Vec<String> = Vec::new();
    let mut piece: String = String::new();
    for c in it: s.chars()
        invariant
            it.seq() == s@,
            views(parts@).push(piece@) == split_on(s@.take(it.index() as int), sep),
    {
        proof {
            lemma_split_push(s@.take(it.index() as int), c, sep);
            assert(s@.take(it.index() as int).push(c) =~= s@.take(it.index() + 1));
        }
        if c == sep {
            parts.push(piece);
            piece = String::new();
        } else {
            piece.push(c);
        }
    }
    assert(s@.take(s@.len() as int) =~= s@);
    parts.push(piece);
    parts
}

} // verus!
