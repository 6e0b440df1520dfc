//! Decimal numerals: reading a total from text and writing one out.

use vstd::prelude::*;

verus! {

/// Whether `c` is one of the ten decimal digits.
pub open spec fn is_digit(c: char) -> bool {
    '0' <= c && c <= '9'
}

/// The number a decimal digit stands for.
pub open spec fn digit_value(c: char) -> int {
    c as int - '0' as int
}

/// Whether `s` holds decimal digits only.
pub open spec fn all_digits(s: Seq<char>) -> bool {
    forall|i: int| 0 <= i < s.len() ==> is_digit(#[trigger] s[i])
}

/// The number that a run of decimal digits denotes, most significant digit first.
pub open spec fn digits_value(s: Seq<char>) -> int
    decreases s.len(),
{
    if s.len() == 0 {
        0
    } else {
        10 * digits_value(s.drop_last()) + digit_value(s.last())
    }
}

/// Whether `s` opens with a sign.
pub open spec fn has_sign(s: Seq<char>) -> bool {
    s.len() > 0 && (s[0] == '-' || s[0] == '+')
}

/// What is left of `s` once its sign, if it has one, is taken off.
pub open spec fn unsigned_part(s: Seq<char>) -> Seq<char> {
    if has_sign(s) {
        s.skip(1)
    } else {
        s
    }
}

/// The integer that `s` denotes as a decimal numeral: an optional `+` or `-`
/// and then one digit or more, with nothing before, between or after.
pub open spec fn decimal(s: Seq<char>) -> Option<int> {
    let digits = unsigned_part(s);
    if digits.len() > 0 && all_digits(digits) {
        if s[0] == '-' {
            Some(-digits_value(digits))
        } else {
            Some(digits_value(digits))
        }
    } else {
        None
    }
}

/// The total that `s` denotes: its decimal value, where that is a 32-bit
/// signed integer.
pub open spec fn parsed_total(s: Seq<char>) -> Option<i32> {
    match decimal(s) {
        Some(v) => if i32::MIN <= v <= i32::MAX {
            Some(v as i32)
        } else {
            None
        },
        None => None,
    }
}

/// Reads a total from `text`.
pub fn parse_total(text: &str) -> (r: Option<i32>)
    ensures
        r == parsed_total(text@),
{
    let mut negative = false;
    let mut signed = false;
    let mut any_digit = false;
    let mut too_big = false;
    let mut magnitude: i64 = 0;
    let mut first = true;
    let ghost mut seen: Seq<char> = Seq::empty();
    for ch in it: text.chars()
        invariant
            it.seq() == text@,
            seen == text@.take(it.index()),
            first == (it.index() == 0),
            signed == has_sign(seen),
            negative == (seen.len() > 0 && seen[0] == '-'),
            all_digits(unsigned_part(seen)),
            any_digit == (unsigned_part(seen).len() > 0),
            0 <= magnitude <= 2147483648,
            !too_big ==> magnitude == digits_value(unsigned_part(seen)),
            too_big ==> digits_value(unsigned_part(seen)) > 2147483648,
    {
        let ghost before = unsigned_part(seen);
        proof {
            seen = text@.take(it.index() + 1);
        }
        if first && (ch == '-' || ch == '+') {
            signed = true;
            negative = ch == '-';
        } else if '0' <= ch && ch <= '9' {
            assert(unsigned_part(seen) =~= before.push(ch));
            assert(unsigned_part(seen).drop_last() =~= before);
            any_digit = true;
            if !too_big {
                magnitude = magnitude * 10 + (ch as i64 - '0' as i64);
                if magnitude > 2147483648 {
                    too_big = true;
                    magnitude = 0;
                }
            }
        } else {
            proof {
                let rest = unsigned_part(text@);
                let k = if has_sign(text@) { it.index() - 1 } else { it.index() };
                assert(!is_digit(rest[k]));
            }
            return None;
        }
        first = false;
    }
    assert(seen == text@);
    if !any_digit || too_big {
        None
    } else if negative {
        Some((-magnitude) as i32)
    } else if magnitude <= 2147483647 {
        Some(magnitude as i32)
    } else {
        None
    }
}

/// The character for a digit from 0 to 9.
pub open spec fn digit_char(d: int) -> char {
    ('0' as int + d) as char
}

/// The decimal digits of `n`, most significant first, with no leading zero.
pub open spec fn numeral(n: nat) -> Seq<char>
    decreases n,
{
    if n < 10 {
        seq![digit_char(n as int)]
    } else {
        numeral(n / 10).push(digit_char((n % 10) as int))
    }
}

/// The decimal numeral of `v`: a `-` for a negative number, then its digits.
pub open spec fn decimal_text(v: int) -> Seq<char> {
    if v < 0 {
        seq!['-'] + numeral((-v) as nat)
    } else {
        numeral(v as nat)
    }
}

/// Appends the digits of `n` to `out`.
fn push_numeral(out: &mut String, n: u32)
    ensures
        final(out)@ == old(out)@ + numeral(n as nat),
    decreases n,
{
    if n >= 10 {
        push_numeral(out, n / 10);
    }
    let digit: u8 = (n % 10) as u8;
    out.push(('0' as u8 + digit) as char);
}

/// Writes `v` out as a decimal numeral.
pub fn render_total(v: i32) -> (s: String)
    ensures
        s@ == decimal_text(v as int),
{
    let mut s = String::new();
    if v < 0 {
        s.push('-');
        push_numeral(&mut s, (-(v as i64)) as u32);
    } else {
        push_numeral(&mut s, v as u32);
    }
    s
}

/// The numeral of `n` is a non-empty run of digits that denotes `n`.
pub proof fn lemma_numeral_denotes(n: nat)
    ensures
        numeral(n).len() > 0,
        all_digits(numeral(n)),
        digits_value(numeral(n)) == n,
    decreases n,
{
    if n < 10 {
        assert(numeral(n).drop_last() =~= Seq::<char>::empty());
        assert(digits_value(Seq::<char>::empty()) == 0);
    } else {
        lemma_numeral_denotes(n / 10);
        assert(numeral(n).drop_last() =~= numeral(n / 10));
    }
}

/// Reading back a numeral that was written out gives the number it was
/// written from.
pub proof fn lemma_decimal_of_text(v: int)
    ensures
        decimal(decimal_text(v)) == Some(v),
{
    if v < 0 {
        lemma_numeral_denotes((-v) as nat);
        assert(unsigned_part(decimal_text(v)) =~= numeral((-v) as nat));
    } else {
        lemma_numeral_denotes(v as nat);
    }
}

/// A total that is written out and read back is the same total.
pub proof fn lemma_parse_rendered(v: i32)
    ensures
        parsed_total(decimal_text(v as int)) == Some(v),
{
    lemma_decimal_of_text(v as int);
}

} // verus!
