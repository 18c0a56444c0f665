//! The colour table: a size byte, then four bytes for each colour in the
//! order blue, green, red, zero.

use vstd::prelude::*;
use vstd::string::*;
use crate::directive::{byte_line, decode_line, lemma_decode_byte_line, push_byte_line};

verus! {

/// Whether `rgb` is a run of whole red-green-blue triples, 256 at most.
pub open spec fn valid_rgb(rgb: Seq<u8>) -> bool {
    rgb.len() % 3 == 0 && rgb.len() <= 768
}

/// The number of colours in `rgb`.
pub open spec fn entry_count(rgb: Seq<u8>) -> int {
    rgb.len() as int / 3
}

/// The size byte: the number of colours, wrapped to one byte.
pub open spec fn size_byte(rgb: Seq<u8>) -> u8 {
    (entry_count(rgb) % 256) as u8
}

/// The four bytes of colour `i`: blue, green, red and a zero that pads the
/// entry to four bytes.
pub open spec fn entry_bytes(rgb: Seq<u8>, i: int) -> Seq<u8> {
    seq![rgb[3 * i + 2], rgb[3 * i + 1], rgb[3 * i], 0u8]
}

/// The bytes of the first `n` colours, in their order.
pub open spec fn entries_bytes(rgb: Seq<u8>, n: int) -> Seq<u8>
    decreases n,
{
    if n <= 0 {
        Seq::empty()
    } else {
        entries_bytes(rgb, n - 1) + entry_bytes(rgb, n - 1)
    }
}

/// The binary table: the size byte and every colour.
pub open spec fn clut_bytes(rgb: Seq<u8>) -> Seq<u8> {
    seq![size_byte(rgb)] + entries_bytes(rgb, entry_count(rgb))
}

/// The listing's line for colour `i`.
pub open spec fn entry_line(rgb: Seq<u8>, i: int) -> Seq<char> {
    byte_line(entry_bytes(rgb, i), true)
}

/// The lines of the first `n` colours.
pub open spec fn entries_text(rgb: Seq<u8>, n: int) -> Seq<char>
    decreases n,
{
    if n <= 0 {
        Seq::empty()
    } else {
        entries_text(rgb, n - 1) + entry_line(rgb, n - 1)
    }
}

/// The listing's line for the size byte.
pub open spec fn size_line(rgb: Seq<u8>) -> Seq<char> {
    byte_line(seq![size_byte(rgb)], false)
}

/// The listing's table: the labelled size, then the labelled colours.
pub open spec fn clut_text(label: Seq<char>, rgb: Seq<u8>) -> Seq<char> {
    "\n"@ + label + "_clut_size:\n"@ + size_line(rgb) + "\n"@ + label + "_clut:\n"@
        + entries_text(rgb, entry_count(rgb))
}

/// A colour table: red, green and blue of each colour, one after another.
pub struct Palette {
    rgb: Vec<u8>,
}

impl View for Palette {
    type V = Seq<u8>;

    closed spec fn view(&self) -> Seq<u8> {
        self.rgb@
    }
}

impl Palette {
    /// What every palette holds: whole triples, 256 at most.
    pub open spec fn wf(&self) -> bool {
        valid_rgb(self@)
    }

    /// The palette of the channels `rgb`, where they are whole triples and
    /// 256 at most.
    pub fn new(rgb: Vec<u8>) -> (r: Option<Palette>)
        ensures
            r.is_some() == valid_rgb(rgb@),
            r matches Some(p) ==> p.wf() && p@ == rgb@,
    {
        if rgb.len() % 3 == 0 && rgb.len() <= 768 {
            Some(Palette { rgb })
        } else {
            None
        }
    }

    /// The number of colours.
    pub fn entries(&self) -> (n: usize)
        ensures
            n == entry_count(self@),
    {
        self.rgb.len() / 3
    }

    /// The channels, as they were given.
    pub fn rgb(&self) -> (r: &[u8])
        ensures
            r@ == self@,
    {
        self.rgb.as_slice()
    }

    /// Appends the binary table to `out`.
    pub fn write_bytes(&self, out: &mut Vec<u8>)
        requires
            self.wf(),
        ensures
            final(out)@ == old(out)@ + clut_bytes(self@),
    {
        let n: usize = self.rgb.len() / 3;
        let size: u8 = (n % 256) as u8;
        out.push(size);
        let mut i: usize = 0;
        while i < n
            invariant
                self.wf(),
                n == entry_count(self@),
                i <= n,
                out@ == old(out)@ + seq![size_byte(self@)] + entries_bytes(self@, i as int),
            decreases n - i,
        {
            out.push(self.rgb[3 * i + 2]);
            out.push(self.rgb[3 * i + 1]);
            out.push(self.rgb[3 * i]);
            out.push(0u8);
            i += 1;
            assert(out@ =~= old(out)@ + seq![size_byte(self@)] + entries_bytes(self@, i as int));
        }
        assert(final(out)@ =~= old(out)@ + clut_bytes(self@));
    }

    /// Appends the listing's table to `out`, its sections named after `label`.
    pub fn write_text(&self, out: &mut String, label: &str)
        requires
            self.wf(),
        ensures
            final(out)@ == old(out)@ + clut_text(label@, self@),
    {
        let n: usize = self.rgb.len() / 3;
        let size: u8 = (n % 256) as u8;
        out.append("\n");
        out.append(label);
        out.append("_clut_size:\n");
        let size_row: Vec<u8> = vec![size];
        assert(size_row@.subrange(0, 1) =~= seq![size_byte(self@)]);
        push_byte_line(out, size_row.as_slice(), 0, 1, false);
        out.append("\n");
        out.append(label);
        out.append("_clut:\n");
        let ghost head = old(out)@ + "\n"@ + label@ + "_clut_size:\n"@ + size_line(self@) + "\n"@
            + label@ + "_clut:\n"@;
        assert(out@ =~= head);
        let mut i: usize = 0;
        while i < n
            invariant
                self.wf(),
                n == entry_count(self@),
                i <= n,
                out@ == head + entries_text(self@, i as int),
            decreases n - i,
        {
            let entry: Vec<u8> = vec![
                self.rgb[3 * i + 2],
                self.rgb[3 * i + 1],
                self.rgb[3 * i],
                0u8,
            ];
            assert(entry@.subrange(0, 4) =~= entry_bytes(self@, i as int));
            push_byte_line(out, entry.as_slice(), 0, 4, true);
            i += 1;
            assert(out@ =~= head + entries_text(self@, i as int));
        }
        assert(final(out)@ =~= old(out)@ + clut_text(label@, self@));
    }
}

/// The table starts with the number of colours wrapped to a byte and holds
/// four bytes for each colour and no more: those of colour `i`, which are its
/// blue, green and red and a zero, stand at `1 + 4 * i`.
pub proof fn lemma_clut_layout(rgb: Seq<u8>)
    requires
        valid_rgb(rgb),
    ensures
        clut_bytes(rgb).len() == 1 + 4 * entry_count(rgb),
        clut_bytes(rgb)[0] as int == entry_count(rgb) % 256,
        forall|i: int|
            #![trigger entry_bytes(rgb, i)]
            0 <= i < entry_count(rgb) ==> {
                &&& clut_bytes(rgb).subrange(1 + 4 * i, 5 + 4 * i) == entry_bytes(rgb, i)
                &&& entry_bytes(rgb, i) == seq![rgb[3 * i + 2], rgb[3 * i + 1], rgb[3 * i], 0u8]
            },
{
    let n = entry_count(rgb);
    let body = entries_bytes(rgb, n);
    lemma_entries_layout(rgb, n);
    assert forall|i: int| #![trigger entry_bytes(rgb, i)] 0 <= i < n implies clut_bytes(
        rgb,
    ).subrange(1 + 4 * i, 5 + 4 * i) == entry_bytes(rgb, i) by {
        assert(clut_bytes(rgb).subrange(1 + 4 * i, 5 + 4 * i) =~= body.subrange(4 * i, 4 * i + 4));
    }
}

/// The bytes of the first `n` colours: four for each, colour `i` at `4 * i`.
pub proof fn lemma_entries_layout(rgb: Seq<u8>, n: int)
    requires
        0 <= n,
    ensures
        entries_bytes(rgb, n).len() == 4 * n,
        forall|i: int|
            #![trigger entry_bytes(rgb, i)]
            0 <= i < n ==> entries_bytes(rgb, n).subrange(4 * i, 4 * i + 4) == entry_bytes(rgb, i),
    decreases n,
{
    if n > 0 {
        lemma_entries_layout(rgb, n - 1);
        assert forall|i: int| #![trigger entry_bytes(rgb, i)] 0 <= i < n implies entries_bytes(
            rgb,
            n,
        ).subrange(4 * i, 4 * i + 4) == entry_bytes(rgb, i) by {
            if i < n - 1 {
                assert(entries_bytes(rgb, n).subrange(4 * i, 4 * i + 4) =~= entries_bytes(
                    rgb,
                    n - 1,
                ).subrange(4 * i, 4 * i + 4));
            } else {
                assert(entries_bytes(rgb, n).subrange(4 * i, 4 * i + 4) =~= entry_bytes(rgb, i));
            }
        }
    }
}

/// The listing and the binary table agree: the size line reads back as the
/// table's first byte, and the line of colour `i` as the four bytes that the
/// table holds for it.
pub proof fn lemma_clut_text_matches_bytes(rgb: Seq<u8>)
    requires
        valid_rgb(rgb),
    ensures
        decode_line(size_line(rgb), false) == clut_bytes(rgb).subrange(0, 1),
        forall|i: int|
            #![trigger entry_line(rgb, i)]
            0 <= i < entry_count(rgb) ==> decode_line(entry_line(rgb, i), true) == clut_bytes(
                rgb,
            ).subrange(1 + 4 * i, 5 + 4 * i),
{
    lemma_clut_layout(rgb);
    lemma_decode_byte_line(seq![size_byte(rgb)], false);
    assert(clut_bytes(rgb).subrange(0, 1) =~= seq![size_byte(rgb)]);
    assert forall|i: int| #![trigger entry_line(rgb, i)] 0 <= i < entry_count(rgb) implies decode_line(
        entry_line(rgb, i),
        true,
    ) == clut_bytes(rgb).subrange(1 + 4 * i, 5 + 4 * i) by {
        lemma_decode_byte_line(entry_bytes(rgb, i), true);
    }
}

/// The bytes read back from the lines of the first `n` colours.
pub open spec fn entries_read_back(rgb: Seq<u8>, n: int) -> Seq<u8>
    decreases n,
{
    if n <= 0 {
        Seq::empty()
    } else {
        entries_read_back(rgb, n - 1) + decode_line(entry_line(rgb, n - 1), true)
    }
}

/// The lines of the first `n` colours read back as the bytes of these
/// colours.
pub proof fn lemma_entries_read_back(rgb: Seq<u8>, n: int)
    ensures
        entries_read_back(rgb, n) == entries_bytes(rgb, n),
    decreases n,
{
    if n > 0 {
        lemma_entries_read_back(rgb, n - 1);
        lemma_decode_byte_line(entry_bytes(rgb, n - 1), true);
    }
}

/// Reading the literals of the listing's table, the size line first and then
/// the line of every colour, gives the binary table byte for byte.
pub proof fn lemma_clut_read_back(rgb: Seq<u8>)
    ensures
        decode_line(size_line(rgb), false) + entries_read_back(rgb, entry_count(rgb))
            == clut_bytes(rgb),
{
    lemma_decode_byte_line(seq![size_byte(rgb)], false);
    lemma_entries_read_back(rgb, entry_count(rgb));
}

} // verus!
