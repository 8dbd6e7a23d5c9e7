//! Conversions between strings and the character sequences the parser reads.
use vstd::prelude::*;
use vstd::std_specs::iter::IteratorSpec;

verus! {

/// `String::push` appends one character to the end of the string.
pub assume_specification[ String::push ](s: &mut String, c: char)
    ensures
        final(s)@ == old(s)@.push(c),
;

/// The characters of `s`, in order.
pub fn chars_of(s: &str) -> (v: Vec<char>)
    ensures
        v@ == s@,
{
    let mut v: Vec<char> = Vec::new();
    let mut it = s.chars();
    proof {
        vstd::string::axiom_spec_iter(s);
    }
    let n = s.unicode_len();
    let mut i: usize = 0;
    while i < n
        invariant
            it.obeys_prophetic_iter_laws(),
            v@ + it.remaining() == s@,
            v@.len() == i,
            n == s@.len(),
            i <= n,
        ensures
            v@ == s@,
        decreases n - i,
    {
        let ghost before = it;
        i += 1;
        match it.next() {
            Some(c) => {
                proof {
                    vstd::string::next_postcondition(&before, &it, Some(c));
                    assert(v@.push(c) + it.remaining() =~= v@ + before.remaining());
                }
                v.push(c);
            },
            None => {
                proof {
                    vstd::string::next_postcondition(&before, &it, None);
                    assert(v@ + before.remaining() =~= v@);
                }
                break ;
            },
        }
    }
    proof {
        assert(v@ + it.remaining() =~= v@) by {
            if v@.len() == n {
                assert(it.remaining().len() == 0);
            }
        }
    }
    v
}

/// The string made of the characters `input[from..to]`.
pub fn string_from(input: &[char], from: usize, to: usize) -> (s: String)
    requires
        from <= to <= input.len(),
    ensures
        s@ == input@.subrange(from as int, to as int),
{
    let mut s = String::new();
    let mut i: usize = from;
    while i < to
        invariant
            from <= i <= to <= input.len(),
            s@ == input@.subrange(from as int, i as int),
        decreases to - i,
    {
        s.push(input[i]);
        i += 1;
        assert(input@.subrange(from as int, i as int) == input@.subrange(
            from as int,
            i - 1,
        ).push(input@[i - 1]));
    }
    s
}

} // verus!
