use vstd::prelude::*;
use vstd::std_specs::iter::IteratorSpec;

verus! {

broadcast use vstd::string::next_postcondition, vstd::string::axiom_spec_iter;

/// A Unicode scalar value: a code point that a `char` can hold
/// (below the surrogate range, or between it and the top code point).
pub open spec fn scalar_value(n: u32) -> bool {
    n < 0xD800 || (0xE000 <= n && n <= 0x10FFFF)
}

/// Collects the characters of a string slice into a vector, one entry per
/// character, in order.
pub fn to_chars(s: &str) -> (r: Vec<char>)
    ensures
        r@ == s@,
{
    let mut out: Vec<char> = Vec::new();
    let mut it = s.chars();
    loop
        invariant
            it.obeys_prophetic_iter_laws(),
            out@ + it.remaining() == s@,
        ensures
            out@ == s@,
        decreases s@.len() - out@.len(),
    {
        match it.next() {
            Some(c) => {
                out.push(c);
            },
            None => {
                proof {
                    assert(out@ =~= s@);
                }
                break ;
            },
        }
    }
    out
}

/// Whether the collected characters equal the given string slice.
pub(crate) fn eq_str(v: &Vec<char>, kw: &str) -> (r: bool)
    ensures
        r == (v@ == kw@),
{
    let kc = to_chars(kw);
    if v.len() != kc.len() {
        proof {
            assert(v@ != kw@) by {
                if v@ == kw@ {
                    assert(v@.len() == kw@.len());
                }
            }
        }
        return false;
    }
    let mut idx: usize = 0;
    while idx < v.len()
        invariant
            0 <= idx <= v@.len(),
            v@.len() == kc@.len(),
            kc@ == kw@,
            forall|t: int| 0 <= t < idx ==> v@[t] == kc@[t],
        decreases v@.len() - idx,
    {
        if v[idx] != kc[idx] {
            return false;
        }
        idx += 1;
    }
    proof {
        assert(v@ =~= kw@);
    }
    true
}

/// Relies on String's FromIterator<char> impl: collecting an iterator of
/// characters yields the string of exactly those characters, in order.
#[verifier::external_body]
pub(crate) fn chars_to_string(v: &Vec<char>) -> (r: String)
    ensures
        r@ == v@,
{
    v.iter().collect()
}

/// Relies on char::from_u32: it returns Some exactly when the argument is a
/// Unicode scalar value, and the returned char has that code point.
#[verifier::external_body]
pub(crate) fn char_from_u32(n: u32) -> (r: Option<char>)
    ensures
        match r {
            Some(c) => scalar_value(n) && c == n as char,
            None => !scalar_value(n),
        },
{
    char::from_u32(n)
}

} // verus!
