//! Two-digit upper-case hexadecimal notation of a byte.

use vstd::prelude::*;
use vstd::string::*;

verus! {

/// The sixteen digits, in order of their value.
pub open spec fn hex_digits() -> Seq<char> {
    "0123456789ABCDEF"@
}

/// The digit that stands for `d`, for `0 <= d < 16`.
pub open spec fn hex_char(d: int) -> char {
    hex_digits()[d]
}

/// The two digits of `b`, most significant first.
pub open spec fn hex_pair(b: u8) -> Seq<char> {
    seq![hex_char(b as int / 16), hex_char(b as int % 16)]
}

/// The value of a digit, or -1 for a character that is none.
pub open spec fn hex_value(c: char) -> int {
    let n = c as int;
    if 48 <= n <= 57 {
        n - 48
    } else if 65 <= n <= 70 {
        n - 55
    } else {
        -1
    }
}

/// The number that two digits denote.
pub open spec fn hex_byte(hi: char, lo: char) -> int {
    16 * hex_value(hi) + hex_value(lo)
}

/// Every digit has the value it stands for.
pub proof fn lemma_hex_char_value(d: int)
    requires
        0 <= d < 16,
    ensures
        hex_value(hex_char(d)) == d,
{
    reveal_strlit("0123456789ABCDEF");
}

/// Reading the two digits of a byte gives the byte back.
pub proof fn lemma_hex_round_trip(b: u8)
    ensures
        hex_pair(b).len() == 2,
        hex_byte(hex_pair(b)[0], hex_pair(b)[1]) == b as int,
{
    lemma_hex_char_value(b as int / 16);
    lemma_hex_char_value(b as int % 16);
}

/// Appends the two digits of `b` to `out`.
pub fn push_hex(out: &mut String, b: u8)
    ensures
        final(out)@ == old(out)@ + hex_pair(b),
{
    let digits: &str = "0123456789ABCDEF";
    proof {
        reveal_strlit("0123456789ABCDEF");
    }
    let hi: usize = (b / 16) as usize;
    let lo: usize = (b % 16) as usize;
    let h: &str = digits.substring_char(hi, hi + 1);
    let l: &str = digits.substring_char(lo, lo + 1);
    out.append(h);
    out.append(l);
    assert(final(out)@ =~= old(out)@ + hex_pair(b));
}

} // verus!
