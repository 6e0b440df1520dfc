//! Pieces of text: what a list of strings stands for, and comparing two
//! strings character by character.

use vstd::prelude::*;
use vstd::std_specs::iter::IteratorSpec;

verus! {

/// Taken on trust of the standard library's `String::push`, of which
/// nothing is proved here: the string after the call is the string before
/// it with `ch` at its end.
pub assume_specification[ String::push ](s: &mut String, ch: char)
    ensures
        final(s)@ == old(s)@.push(ch),
;

/// The character sequences that a list of strings stands for.
pub open spec fn texts(v: Seq<String>) -> Seq<Seq<char>> {
    v.map_values(|s: String| s@)
}

/// Whether two strings hold the same characters.
pub fn same_text(a: &str, b: &str) -> (r: bool)
    ensures
        r == (a@ == b@),
{
    let mut xs = a.chars();
    let mut ys = b.chars();
    let ghost mut n: int = 0;
    loop
        invariant
            xs.obeys_prophetic_iter_laws(),
            ys.obeys_prophetic_iter_laws(),
            0 <= n <= a@.len(),
            n <= b@.len(),
            xs.remaining() == a@.skip(n),
            ys.remaining() == b@.skip(n),
            a@.take(n) == b@.take(n),
        decreases a@.len() - n,
    {
        let x = xs.next();
        let y = ys.next();
        match (x, y) {
            (None, None) => {
                assert(a@ == a@.take(n));
                assert(b@ == b@.take(n));
                return true;
            },
            (Some(c), Some(d)) => {
                if c != d {
                    return false;
                }
                proof {
                    n = n + 1;
                }
            },
            _ => {
                return false;
            },
        }
    }
}

/// Whether `line` begins with the characters of `prefix`.
pub fn starts_with(line: &str, prefix: &str) -> (r: bool)
    ensures
        r == prefix@.is_prefix_of(line@),
{
    let mut xs = line.chars();
    let mut ys = prefix.chars();
    let ghost mut n: int = 0;
    loop
        invariant
            xs.obeys_prophetic_iter_laws(),
            ys.obeys_prophetic_iter_laws(),
            0 <= n <= line@.len(),
            n <= prefix@.len(),
            xs.remaining() == line@.skip(n),
            ys.remaining() == prefix@.skip(n),
            line@.take(n) == prefix@.take(n),
        decreases prefix@.len() - n,
    {
        let y = ys.next();
        match y {
            None => {
                return true;
            },
            Some(d) => {
                let x = xs.next();
                match x {
                    None => {
                        return false;
                    },
                    Some(c) => {
                        if c != d {
                            assert(prefix@.len() <= line@.len() ==> line@.subrange(
                                0,
                                prefix@.len() as int,
                            )[n] == line@[n]);
                            return false;
                        }
                        proof {
                            n = n + 1;
                        }
                    },
                }
            },
        }
    }
}

} // verus!
