//! One `.byte` line of the listing: the directive, then the byte literals,
//! separated by commas.

use vstd::prelude::*;
use vstd::string::*;
use crate::hex::{hex_byte, hex_pair, lemma_hex_round_trip, push_hex};

verus! {

/// One literal: a blank, the sigil `$` where the line carries it, two digits.
pub open spec fn literal(b: u8, sigil: bool) -> Seq<char> {
    if sigil {
        " $"@ + hex_pair(b)
    } else {
        " "@ + hex_pair(b)
    }
}

/// The literals of `bytes` with a comma between each two of them.
pub open spec fn literals(bytes: Seq<u8>, sigil: bool) -> Seq<char>
    decreases bytes.len(),
{
    if bytes.len() == 0 {
        Seq::empty()
    } else if bytes.len() == 1 {
        literal(bytes[0], sigil)
    } else {
        literals(bytes.drop_last(), sigil) + ","@ + literal(bytes.last(), sigil)
    }
}

/// The whole line for `bytes`, with its line feed.
pub open spec fn byte_line(bytes: Seq<u8>, sigil: bool) -> Seq<char> {
    ".byte"@ + literals(bytes, sigil) + "\n"@
}

/// Appends the line for `bytes[start .. start + count]` to `out`.
pub fn push_byte_line(out: &mut String, bytes: &[u8], start: usize, count: usize, sigil: bool)
    requires
        start + count <= bytes@.len(),
    ensures
        final(out)@ == old(out)@ + byte_line(
            bytes@.subrange(start as int, start + count),
            sigil,
        ),
{
    let ghost row = bytes@.subrange(start as int, start + count);
    let total: usize = bytes.len();
    out.append(".byte");
    let mut col: usize = 0;
    while col < count
        invariant
            col <= count,
            start + count <= total == bytes@.len(),
            row == bytes@.subrange(start as int, start + count),
            out@ == old(out)@ + ".byte"@ + literals(row.take(col as int), sigil),
        decreases count - col,
    {
        let ghost before = out@;
        if col > 0 {
            out.append(",");
        }
        if sigil {
            out.append(" $");
        } else {
            out.append(" ");
        }
        push_hex(out, bytes[start + col]);
        proof {
            let next = row.take(col + 1);
            assert(next.drop_last() =~= row.take(col as int));
            assert(next.last() == bytes@[start + col]);
            assert(out@ =~= old(out)@ + ".byte"@ + literals(next, sigil));
        }
        col += 1;
    }
    out.append("\n");
    assert(row.take(count as int) =~= row);
    assert(final(out)@ =~= old(out)@ + byte_line(row, sigil));
}

/// The width of one literal with its separator.
pub open spec fn stride(sigil: bool) -> int {
    if sigil {
        5
    } else {
        4
    }
}

/// The number of literals on a line.
pub open spec fn literal_count(line: Seq<char>, sigil: bool) -> int {
    (line.len() - 5) / stride(sigil)
}

/// The byte that literal `k` of a line denotes, read from its two digits.
pub open spec fn literal_at(line: Seq<char>, sigil: bool, k: int) -> u8 {
    let first = 5 + stride(sigil) * k + stride(sigil) - 3;
    hex_byte(line[first], line[first + 1]) as u8
}

/// The bytes that a line lists, read back from its text.
pub open spec fn decode_line(line: Seq<char>, sigil: bool) -> Seq<u8> {
    Seq::new(literal_count(line, sigil) as nat, |k: int| literal_at(line, sigil, k))
}

/// Length of the literals of `bytes`, and where the digits of each stand.
pub proof fn lemma_literals_layout(bytes: Seq<u8>, sigil: bool)
    ensures
        bytes.len() == 0 ==> literals(bytes, sigil).len() == 0,
        bytes.len() > 0 ==> literals(bytes, sigil).len() == stride(sigil) * bytes.len() - 1,
        forall|k: int|
            #![trigger bytes[k]]
            0 <= k < bytes.len() ==> {
                let first = stride(sigil) * k + stride(sigil) - 3;
                &&& literals(bytes, sigil)[first] == hex_pair(bytes[k])[0]
                &&& literals(bytes, sigil)[first + 1] == hex_pair(bytes[k])[1]
            },
    decreases bytes.len(),
{
    reveal_strlit(" $");
    reveal_strlit(" ");
    reveal_strlit(",");
    if bytes.len() == 1 {
    } else if bytes.len() > 1 {
        let head = bytes.drop_last();
        lemma_literals_layout(head, sigil);
        let n = head.len() as int;
        assert(stride(sigil) * (n + 1) == stride(sigil) * n + stride(sigil)) by (nonlinear_arith);
        assert forall|k: int| #![trigger bytes[k]] 0 <= k < bytes.len() implies ({
            let first = stride(sigil) * k + stride(sigil) - 3;
            &&& literals(bytes, sigil)[first] == hex_pair(bytes[k])[0]
            &&& literals(bytes, sigil)[first + 1] == hex_pair(bytes[k])[1]
        }) by {
            if k < n {
                assert(head[k] == bytes[k]);
                assert(stride(sigil) * k + stride(sigil) <= stride(sigil) * n) by (nonlinear_arith)
                    requires
                        0 <= k < n,
                        stride(sigil) > 0,
                ;
            } else {
                assert(stride(sigil) * k == stride(sigil) * n);
            }
        }
    }
}

/// Reading a line back gives the bytes it was written for.
pub proof fn lemma_decode_byte_line(bytes: Seq<u8>, sigil: bool)
    ensures
        decode_line(byte_line(bytes, sigil), sigil) == bytes,
{
    reveal_strlit(".byte");
    reveal_strlit("\n");
    lemma_literals_layout(bytes, sigil);
    let line = byte_line(bytes, sigil);
    let n = bytes.len() as int;
    assert(literal_count(line, sigil) == n) by {
        if n == 0 {
        } else {
            assert((stride(sigil) * n) / stride(sigil) == n) by (nonlinear_arith)
                requires
                    stride(sigil) > 0,
            ;
        }
    }
    assert forall|k: int| 0 <= k < n implies literal_at(line, sigil, k) == bytes[k] by {
        lemma_hex_round_trip(bytes[k]);
        assert(0 <= stride(sigil) * k && stride(sigil) * k + stride(sigil) <= stride(sigil) * n)
            by (nonlinear_arith)
            requires
                0 <= k < n,
                stride(sigil) > 0,
        ;
    }
    assert(decode_line(line, sigil) =~= bytes);
}

} // verus!
