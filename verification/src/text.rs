//! Character sequences: the plain values every other module works on.

use vstd::prelude::*;
use vstd::string::*;

verus! {

/// `String::push` of the standard library: the character is appended at the
/// end and nothing else changes.
pub assume_specification[ String::push ](s: &mut String, c: char)
    ensures
        final(s)@ == old(s)@.push(c),
;

/// The characters of a string slice, in order.
pub fn chars_of(s: &str) -> (v: Vec<char>)
    ensures
        v@ == s@,
{
    let n: usize = s.unicode_len();
    let mut v: Vec<char> = Vec::new();
    let mut i: usize = 0;
    while i < n
        invariant
            i <= n,
            n == s@.len(),
            v@ == s@.subrange(0, i as int),
        decreases n - i,
    {
        v.push(s.get_char(i));
        i += 1;
        assert(v@ =~= s@.subrange(0, i as int));
    }
    assert(s@.subrange(0, n as int) =~= s@);
    v
}

/// The string made of the given characters, in order.
pub fn string_of(v: &Vec<char>) -> (s: String)
    ensures
        s@ == v@,
{
    let mut s = String::new();
    let mut i: usize = 0;
    while i < v.len()
        invariant
            i <= v.len(),
            s@ == v@.subrange(0, i as int),
        decreases v.len() - i,
    {
        s.push(v[i]);
        i += 1;
        assert(s@ =~= v@.subrange(0, i as int));
    }
    assert(v@.subrange(0, v.len() as int) =~= v@);
    s
}

/// A copy of the characters from index `from` up to, not including, `to`.
pub fn slice_of(v: &Vec<char>, from: usize, to: usize) -> (r: Vec<char>)
    requires
        from <= to <= v.len(),
    ensures
        r@ == v@.subrange(from as int, to as int),
{
    let mut r: Vec<char> = Vec::new();
    let mut i: usize = from;
    while i < to
        invariant
            from <= i <= to,
            to <= v.len(),
            r@ == v@.subrange(from as int, i as int),
        decreases to - i,
    {
        r.push(v[i]);
        i += 1;
        assert(r@ =~= v@.subrange(from as int, i as int));
    }
    r
}

/// Appends the characters of `tail` to `head`.
pub fn append_chars(head: &mut Vec<char>, tail: &Vec<char>)
    ensures
        final(head)@ == old(head)@ + tail@,
{
    let mut i: usize = 0;
    while i < tail.len()
        invariant
            i <= tail.len(),
            head@ == old(head)@ + tail@.subrange(0, i as int),
        decreases tail.len() - i,
    {
        head.push(tail[i]);
        i += 1;
        assert(head@ =~= old(head)@ + tail@.subrange(0, i as int));
    }
    assert(tail@.subrange(0, tail.len() as int) =~= tail@);
}

/// Whether `v` holds `lit` at `offset`: the literal fits and every character agrees.
pub open spec fn matches_at(v: Seq<char>, offset: int, lit: Seq<char>) -> bool {
    &&& 0 <= offset
    &&& offset + lit.len() <= v.len()
    &&& v.subrange(offset, offset + lit.len()) == lit
}

/// Tests whether the characters of `lit` stand in `v` from `offset` on.
pub fn has_at(v: &Vec<char>, offset: usize, lit: &str) -> (b: bool)
    ensures
        b == matches_at(v@, offset as int, lit@),
{
    let n: usize = lit.unicode_len();
    if offset > v.len() || n > v.len() - offset {
        return false;
    }
    let mut i: usize = 0;
    while i < n
        invariant
            i <= n,
            n == lit@.len(),
            offset + n <= v.len(),
            v@.subrange(offset as int, offset + i) == lit@.subrange(0, i as int),
        decreases n - i,
    {
        let c = lit.get_char(i);
        if v[offset + i] != c {
            proof {
                if v@.subrange(offset as int, offset + n) == lit@ {
                    assert(v@.subrange(offset as int, offset + n)[i as int] == lit@[i as int]);
                }
            }
            return false;
        }
        i += 1;
        assert(v@.subrange(offset as int, offset + i) =~= lit@.subrange(0, i as int));
    }
    assert(lit@.subrange(0, n as int) =~= lit@);
    true
}

/// Whether the characters of `v` from `from` up to `to` spell `lit`.
pub fn word_is(v: &Vec<char>, from: usize, to: usize, lit: &str) -> (b: bool)
    requires
        from <= to <= v@.len(),
    ensures
        b == (v@.subrange(from as int, to as int) == lit@),
{
    let n: usize = lit.unicode_len();
    if to - from != n {
        return false;
    }
    has_at(v, from, lit)
}

} // verus!
