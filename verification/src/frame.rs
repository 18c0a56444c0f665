//! One frame: a header of two little-endian 16-bit dimensions, then the
//! palette indices row by row.

use vstd::prelude::*;
use vstd::string::*;
use crate::directive::{byte_line, decode_line, lemma_decode_byte_line, push_byte_line};

verus! {

/// The low and the high byte of a dimension, in this order.
pub open spec fn dimension_bytes(v: u16) -> Seq<u8> {
    seq![(v % 256) as u8, (v / 256) as u8]
}

/// The four header bytes: the width, then the height.
pub open spec fn header_bytes(width: u16, height: u16) -> Seq<u8> {
    dimension_bytes(width) + dimension_bytes(height)
}

/// The binary frame: the header and the pixels as they are.
pub open spec fn img_bytes(width: u16, height: u16, pixels: Seq<u8>) -> Seq<u8> {
    header_bytes(width, height) + pixels
}

/// Row `r` of the pixels: the indices from `r * width` on, `width` of them.
pub open spec fn row(width: u16, pixels: Seq<u8>, r: int) -> Seq<u8> {
    pixels.subrange(r * width, r * width + width)
}

/// The first `n` rows, one after another.
pub open spec fn rows_bytes(width: u16, pixels: Seq<u8>, n: int) -> Seq<u8>
    decreases n,
{
    if n <= 0 {
        Seq::empty()
    } else {
        rows_bytes(width, pixels, n - 1) + row(width, pixels, n - 1)
    }
}

/// The listing's line for row `r`.
pub open spec fn row_line(width: u16, pixels: Seq<u8>, r: int) -> Seq<char> {
    byte_line(row(width, pixels, r), true)
}

/// The lines of the first `n` rows.
pub open spec fn rows_text(width: u16, pixels: Seq<u8>, n: int) -> Seq<char>
    decreases n,
{
    if n <= 0 {
        Seq::empty()
    } else {
        rows_text(width, pixels, n - 1) + row_line(width, pixels, n - 1)
    }
}

/// The listing's line for one dimension.
pub open spec fn dimension_line(v: u16) -> Seq<char> {
    byte_line(dimension_bytes(v), false)
}

/// The listing's frame: the labelled dimensions, then the labelled rows.
pub open spec fn img_text(label: Seq<char>, width: u16, height: u16, pixels: Seq<u8>) -> Seq<
    char,
> {
    "\n"@ + label + "_img_size:\n"@ + dimension_line(width) + dimension_line(height) + "\n"@
        + label + "_img:\n"@ + rows_text(width, pixels, height as int)
}

/// Whether `len` pixels fill a frame of these dimensions.
pub open spec fn valid_size(width: u16, height: u16, len: nat) -> bool {
    len == width * height
}

/// A frame of palette indices, row by row from the top.
pub struct Frame {
    width: u16,
    height: u16,
    pixels: Vec<u8>,
}

/// What a frame holds.
pub struct FrameView {
    pub width: u16,
    pub height: u16,
    pub pixels: Seq<u8>,
}

impl View for Frame {
    type V = FrameView;

    closed spec fn view(&self) -> FrameView {
        FrameView { width: self.width, height: self.height, pixels: self.pixels@ }
    }
}

impl FrameView {
    /// The binary form of the frame.
    pub open spec fn bytes(self) -> Seq<u8> {
        img_bytes(self.width, self.height, self.pixels)
    }

    /// The listing's form of the frame.
    pub open spec fn text(self, label: Seq<char>) -> Seq<char> {
        img_text(label, self.width, self.height, self.pixels)
    }
}

impl Frame {
    /// What every frame holds: one index for each pixel.
    pub open spec fn wf(&self) -> bool {
        valid_size(self@.width, self@.height, self@.pixels.len())
    }

    /// The frame of these dimensions and pixels, where the pixels fill it.
    pub fn new(width: u16, height: u16, pixels: Vec<u8>) -> (r: Option<Frame>)
        ensures
            r.is_some() == valid_size(width, height, pixels@.len()),
            r matches Some(f) ==> f.wf() && f@ == (FrameView { width, height, pixels: pixels@ }),
    {
        proof {
            assert(0 <= width * height <= 0xffff * 0xffff) by (nonlinear_arith)
                requires
                    0 <= width <= 0xffff,
                    0 <= height <= 0xffff,
            ;
        }
        let area: u64 = (width as u64) * (height as u64);
        if pixels.len() as u64 == area {
            Some(Frame { width, height, pixels })
        } else {
            None
        }
    }

    /// The width in pixels.
    pub fn width(&self) -> (w: u16)
        ensures
            w == self@.width,
    {
        self.width
    }

    /// The height in pixels.
    pub fn height(&self) -> (h: u16)
        ensures
            h == self@.height,
    {
        self.height
    }

    /// The palette indices, row by row.
    pub fn pixels(&self) -> (p: &[u8])
        ensures
            p@ == self@.pixels,
    {
        self.pixels.as_slice()
    }

    /// Appends the binary form of the frame to `out`.
    pub fn write_bytes(&self, out: &mut Vec<u8>)
        requires
            self.wf(),
        ensures
            final(out)@ == old(out)@ + self@.bytes(),
    {
        out.push((self.width % 256) as u8);
        out.push((self.width / 256) as u8);
        out.push((self.height % 256) as u8);
        out.push((self.height / 256) as u8);
        let n: usize = self.pixels.len();
        let mut i: usize = 0;
        while i < n
            invariant
                n == self.pixels@.len(),
                i <= n,
                out@ == old(out)@ + header_bytes(self.width, self.height) + self.pixels@.take(
                    i as int,
                ),
            decreases n - i,
        {
            out.push(self.pixels[i]);
            i += 1;
            assert(out@ =~= old(out)@ + header_bytes(self.width, self.height) + self.pixels@.take(
                i as int,
            ));
        }
        assert(self.pixels@.take(n as int) =~= self.pixels@);
        assert(final(out)@ =~= old(out)@ + self@.bytes());
    }

    /// Appends the listing's form of the frame to `out`, its sections named
    /// after `label`.
    pub fn write_text(&self, out: &mut String, label: &str)
        requires
            self.wf(),
        ensures
            final(out)@ == old(out)@ + self@.text(label@),
    {
        let width: usize = self.width as usize;
        let height: usize = self.height as usize;
        out.append("\n");
        out.append(label);
        out.append("_img_size:\n");
        let wide: Vec<u8> = vec![(self.width % 256) as u8, (self.width / 256) as u8];
        assert(wide@.subrange(0, 2) =~= dimension_bytes(self.width));
        push_byte_line(out, wide.as_slice(), 0, 2, false);
        let high: Vec<u8> = vec![(self.height % 256) as u8, (self.height / 256) as u8];
        assert(high@.subrange(0, 2) =~= dimension_bytes(self.height));
        push_byte_line(out, high.as_slice(), 0, 2, false);
        out.append("\n");
        out.append(label);
        out.append("_img:\n");
        let ghost head = old(out)@ + "\n"@ + label@ + "_img_size:\n"@ + dimension_line(self.width)
            + dimension_line(self.height) + "\n"@ + label@ + "_img:\n"@;
        assert(out@ =~= head);
        let total: usize = self.pixels.len();
        let mut r: usize = 0;
        while r < height
            invariant
                self.wf(),
                total == self.pixels@.len(),
                width == self.width,
                height == self.height,
                r <= height,
                out@ == head + rows_text(self.width, self.pixels@, r as int),
            decreases height - r,
        {
            proof {
                assert(0 <= r * width && r * width + width <= width * height) by (nonlinear_arith)
                    requires
                        0 <= r < height,
                        0 <= width,
                ;
            }
            let start: usize = r * width;
            push_byte_line(out, self.pixels.as_slice(), start, width, true);
            r += 1;
            assert(out@ =~= head + rows_text(self.width, self.pixels@, r as int));
        }
        assert(final(out)@ =~= old(out)@ + self@.text(label@));
    }
}

/// A dimension is its low byte plus 256 times its high byte.
pub proof fn lemma_dimension_round_trip(v: u16)
    ensures
        dimension_bytes(v).len() == 2,
        dimension_bytes(v)[0] + 256 * dimension_bytes(v)[1] == v,
{
}

/// The binary frame is four header bytes, from which both dimensions can be
/// read back, and then the pixels, unchanged.
pub proof fn lemma_img_layout(width: u16, height: u16, pixels: Seq<u8>)
    ensures
        img_bytes(width, height, pixels).len() == 4 + pixels.len(),
        img_bytes(width, height, pixels)[0] + 256 * img_bytes(width, height, pixels)[1] == width,
        img_bytes(width, height, pixels)[2] + 256 * img_bytes(width, height, pixels)[3] == height,
        img_bytes(width, height, pixels).skip(4) == pixels,
{
    assert(img_bytes(width, height, pixels).skip(4) =~= pixels);
}

/// The rows of a frame, one after another, are its pixels.
pub proof fn lemma_rows_are_pixels(width: u16, height: u16, pixels: Seq<u8>)
    requires
        valid_size(width, height, pixels.len()),
    ensures
        rows_bytes(width, pixels, height as int) == pixels,
{
    lemma_rows_prefix(width, height, pixels, height as int);
    assert(pixels.take(height * width) =~= pixels) by {
        assert(height * width == width * height) by (nonlinear_arith);
    }
}

/// The first `n` rows of a frame are its first `n * width` pixels.
pub proof fn lemma_rows_prefix(width: u16, height: u16, pixels: Seq<u8>, n: int)
    requires
        valid_size(width, height, pixels.len()),
        0 <= n <= height,
    ensures
        n * width <= pixels.len(),
        rows_bytes(width, pixels, n) == pixels.take(n * width),
    decreases n,
{
    assert(n * width <= width * height) by (nonlinear_arith)
        requires
            0 <= n <= height,
            0 <= width,
    ;
    if n > 0 {
        lemma_rows_prefix(width, height, pixels, n - 1);
        let from = (n - 1) * width;
        let to = n * width;
        assert(from + width == to && 0 <= from) by (nonlinear_arith)
            requires
                n > 0,
                0 <= width,
                from == (n - 1) * width,
                to == n * width,
        ;
        assert(row(width, pixels, n - 1) == pixels.subrange(from, to));
        assert(pixels.take(from) + pixels.subrange(from, to) =~= pixels.take(to));
    } else {
        assert(n * width == 0) by (nonlinear_arith)
            requires
                n == 0,
        ;
        assert(rows_bytes(width, pixels, n) =~= pixels.take(n * width));
    }
}

/// The listing and the binary frame agree: the two dimension lines read
/// back as the four header bytes, and the line of row `r` as the `width`
/// bytes that the binary frame holds for that row, which are the pixels from
/// `r * width` on.
pub proof fn lemma_img_text_matches_bytes(width: u16, height: u16, pixels: Seq<u8>)
    requires
        valid_size(width, height, pixels.len()),
    ensures
        decode_line(dimension_line(width), false) == img_bytes(width, height, pixels).subrange(
            0,
            2,
        ),
        decode_line(dimension_line(height), false) == img_bytes(width, height, pixels).subrange(
            2,
            4,
        ),
        forall|r: int|
            #![trigger row_line(width, pixels, r)]
            0 <= r < height ==> {
                &&& decode_line(row_line(width, pixels, r), true) == img_bytes(
                    width,
                    height,
                    pixels,
                ).subrange(4 + r * width, 4 + r * width + width)
                &&& decode_line(row_line(width, pixels, r), true) == pixels.subrange(
                    r * width,
                    r * width + width,
                )
            },
{
    let bytes = img_bytes(width, height, pixels);
    lemma_decode_byte_line(dimension_bytes(width), false);
    lemma_decode_byte_line(dimension_bytes(height), false);
    assert(bytes.subrange(0, 2) =~= dimension_bytes(width));
    assert(bytes.subrange(2, 4) =~= dimension_bytes(height));
    assert forall|r: int| #![trigger row_line(width, pixels, r)] 0 <= r < height implies {
        &&& decode_line(row_line(width, pixels, r), true) == bytes.subrange(
            4 + r * width,
            4 + r * width + width,
        )
        &&& decode_line(row_line(width, pixels, r), true) == pixels.subrange(
            r * width,
            r * width + width,
        )
    } by {
        lemma_decode_byte_line(row(width, pixels, r), true);
        assert(0 <= r * width && r * width + width <= width * height) by (nonlinear_arith)
            requires
                0 <= r < height,
                0 <= width,
        ;
        assert(bytes.subrange(4 + r * width, 4 + r * width + width) =~= row(width, pixels, r));
    }
}

/// The bytes read back from the lines of the first `n` rows.
pub open spec fn rows_read_back(width: u16, pixels: Seq<u8>, n: int) -> Seq<u8>
    decreases n,
{
    if n <= 0 {
        Seq::empty()
    } else {
        rows_read_back(width, pixels, n - 1) + decode_line(row_line(width, pixels, n - 1), true)
    }
}

/// The lines of the first `n` rows read back as these rows.
pub proof fn lemma_rows_read_back(width: u16, pixels: Seq<u8>, n: int)
    ensures
        rows_read_back(width, pixels, n) == rows_bytes(width, pixels, n),
    decreases n,
{
    if n > 0 {
        lemma_rows_read_back(width, pixels, n - 1);
        lemma_decode_byte_line(row(width, pixels, n - 1), true);
    }
}

/// Reading the literals of the listing's frame, the two dimension lines
/// first and then the line of every row, gives the binary frame byte for
/// byte; the rows alone give the pixels.
pub proof fn lemma_img_read_back(width: u16, height: u16, pixels: Seq<u8>)
    requires
        valid_size(width, height, pixels.len()),
    ensures
        rows_read_back(width, pixels, height as int) == pixels,
        decode_line(dimension_line(width), false) + decode_line(dimension_line(height), false)
            + rows_read_back(width, pixels, height as int) == img_bytes(width, height, pixels),
{
    lemma_decode_byte_line(dimension_bytes(width), false);
    lemma_decode_byte_line(dimension_bytes(height), false);
    lemma_rows_read_back(width, pixels, height as int);
    lemma_rows_are_pixels(width, height, pixels);
}

} // verus!
