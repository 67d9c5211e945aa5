//! Character-level helpers on strings, stated over `Seq<char>` views.

use vstd::prelude::*;
use vstd::string::*;
use flexstr::ToCase;

verus! {

/// Relies on `String::push`: the character is appended.
#[verifier::external_body]
pub fn push_char(buffer: &mut String, c: char)
    ensures
        final(buffer)@ == old(buffer)@.push(c),
{
    buffer.push(c)
}

/// Number of characters (not bytes) of `s`.
pub fn char_count(s: &str) -> (r: usize)
    ensures
        r == s@.len(),
{
    s.unicode_len()
}

/// Whether two strings hold the same characters.
pub fn same_text(a: &str, b: &str) -> (r: bool)
    ensures
        r == (a@ == b@),
{
    let n = a.unicode_len();
    if n != b.unicode_len() {
        return false;
    }
    let mut i: usize = 0;
    while i < n
        invariant
            n == a@.len(),
            n == b@.len(),
            i <= n,
            a@.subrange(0, i as int) == b@.subrange(0, i as int),
        decreases n - i,
    {
        if a.get_char(i) != b.get_char(i) {
            assert(a@[i as int] != b@[i as int]);
            return false;
        }
        assert(a@.subrange(0, i + 1) =~= a@.subrange(0, i as int).push(a@[i as int]));
        assert(b@.subrange(0, i + 1) =~= b@.subrange(0, i as int).push(b@[i as int]));
        i = i + 1;
    }
    assert(a@ =~= a@.subrange(0, n as int));
    assert(b@ =~= b@.subrange(0, n as int));
    true
}

/// `s` with every `from` replaced by `to`.
pub open spec fn replaced(s: Seq<char>, from: char, to: char) -> Seq<char> {
    s.map_values(|c: char| if c == from { to } else { c })
}

/// `s` with every `from` replaced by `to`.
pub fn replace_char(s: &str, from: char, to: char) -> (r: String)
    ensures
        r@ == replaced(s@, from, to),
{
    let n = char_count(s);
    let mut r = String::new();
    let mut i: usize = 0;
    while i < n
        invariant
            n == s@.len(),
            i <= n,
            r@ == replaced(s@.take(i as int), from, to),
        decreases n - i,
    {
        let c = s.get_char(i);
        let d = if c == from { to } else { c };
        push_char(&mut r, d);
        assert(s@.take(i + 1) =~= s@.take(i as int).push(c));
        assert(r@ =~= replaced(s@.take(i + 1), from, to));
        i = i + 1;
    }
    assert(s@.take(n as int) =~= s@);
    r
}

/// The lowercase form of `s`, character by character.
pub uninterp spec fn lower_of(s: Seq<char>) -> Seq<char>;

/// Relies on flexstr's `ToCase::to_lower` on `str`: each character is
/// replaced by its lowercase mapping; the result depends on `s` alone.
#[verifier::external_body]
pub fn to_lower(s: &str) -> (r: String)
    ensures
        r@ == lower_of(s@),
{
    let lowered: flexstr::LocalStr = s.to_lower();
    lowered.to_string()
}

} // verus!
