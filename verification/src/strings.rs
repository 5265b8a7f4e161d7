//! String editing, specified.
//!
//! vstd specifies the reading side of `String`; the few mutating operations
//! the text-field widget edits its value with are given their documented
//! contracts here, and a verified helper collects a string's characters into
//! a vector so that other modules can examine them by index.

use vstd::prelude::*;

verus! {

use vstd::std_specs::iter::IteratorSpec;

/// Relies on `String::push`: appends one character at the end of the string.
pub assume_specification[ String::push ](s: &mut String, ch: char)
    ensures
        final(s)@ == old(s)@.push(ch),
;

/// Relies on `String::pop`: removes and returns the last character, and
/// returns `None` exactly on an empty string.
pub assume_specification[ String::pop ](s: &mut String) -> (r: Option<char>)
    ensures
        match r {
            Some(c) => old(s)@.len() > 0 && c == old(s)@.last() && final(s)@ == old(s)@.drop_last(),
            None => old(s)@.len() == 0 && final(s)@ == old(s)@,
        },
;

/// Relies on `String::clear`: removes every character.
pub assume_specification[ String::clear ](s: &mut String)
    ensures
        final(s)@.len() == 0,
;

/// Relies on `String::push_str`: appends the characters of `other`.
pub assume_specification[ String::push_str ](s: &mut String, other: &str)
    ensures
        final(s)@ == old(s)@ + other@,
;

/// The characters of `s`, collected in order.
pub fn chars_vec(s: &str) -> (r: Vec<char>)
    ensures
        r@ == s@,
{
    broadcast use vstd::string::axiom_spec_iter;

    let mut it = s.chars();
    let mut out: Vec<char> = Vec::new();
    proof {
        assert(it.remaining() == s@);
    }
    loop
        invariant
            it.obeys_prophetic_iter_laws(),
            out@ + it.remaining() == s@,
        ensures
            out@ == s@,
        decreases s@.len() - out@.len(),
    {
        let ghost pre_rem = it.remaining();
        let ghost pre_out = out@;
        match it.next() {
            Some(c) => {
                out.push(c);
                proof {
                    assert(pre_rem =~= seq![pre_rem[0]] + pre_rem.drop_first());
                    assert(out@ + it.remaining() =~= pre_out + pre_rem);
                }
            },
            None => {
                proof {
                    assert(pre_rem.len() == 0);
                    assert(out@ =~= s@);
                }
                break ;
            },
        }
    }
    out
}

} // verus!
