use vstd::prelude::*;

verus! {

/// ASCII lower case of one character; other characters stay as they are.
pub open spec fn lower_char(c: char) -> char {
    if 'A' <= c <= 'Z' {
        ((c as u8) + 32) as char
    } else {
        c
    }
}

/// ASCII lower case of a whole text.
pub open spec fn lower(s: Seq<char>) -> Seq<char> {
    s.map_values(|c: char| lower_char(c))
}

/// Relies on String::push: appends one character.
#[verifier::external_body]
pub(crate) fn push_char(s: &mut String, c: char)
    ensures
        final(s)@ == old(s)@.push(c),
{
    s.push(c)
}

/// Appends a text to a string.
pub(crate) fn push_text(s: &mut String, t: &str)
    ensures
        final(s)@ == old(s)@ + t@,
{
    let ghost start = s@;
    for c in it: t.chars()
        invariant
            it.seq() == t@,
            s@ == start + t@.subrange(0, it.index() as int),
    {
        push_char(s, c);
        assert(s@ == start + t@.subrange(0, it.index() + 1));
    }
    assert(t@.subrange(0, t@.len() as int) == t@);
}

/// ASCII lower case of `s`: the package id as it appears in addresses and cache keys.
pub fn ascii_lowercase(s: &str) -> (r: String)
    ensures
        r@ == lower(s@),
{
    let mut out = String::new();
    for c in it: s.chars()
        invariant
            it.seq() == s@,
            out@ == lower(s@.subrange(0, it.index() as int)),
    {
        let l = if 'A' <= c && c <= 'Z' {
            ((c as u8) + 32) as char
        } else {
            c
        };
        push_char(&mut out, l);
        assert(lower(s@.subrange(0, it.index() + 1)) == lower(
            s@.subrange(0, it.index() as int),
        ).push(l));
    }
    assert(s@.subrange(0, s@.len() as int) == s@);
    out
}

} // verus!
