//! The conversion of a GIF file's bytes: the `gif` crate decodes them to
//! palette indices, and each part is written to the outputs as it comes.

use vstd::prelude::*;
use crate::frame::{valid_size, Frame, FrameView};
use crate::palette::{valid_rgb, Palette};
use crate::sinks::{Sinks, SinksView};

verus! {

/// A `gif::Decoder` that reads from a slice: a stream of frames. Nothing of
/// its inside is known here; `global_colours`, `frames_ahead` and
/// `ends_in_error` name what it will hand out.
#[verifier::external_body]
pub struct FrameStream<'a> {
    decoder: gif::Decoder<&'a [u8]>,
}

/// `gif::DecodingError`, which is carried through unread.
#[verifier::external_type_specification]
#[verifier::external_body]
pub struct ExDecodingError(gif::DecodingError);

/// What a decoded file holds: the global palette if it has one, the frames
/// that can be read before the stream ends or fails, and whether it fails.
pub struct GifView {
    pub palette: Option<Seq<u8>>,
    pub frames: Seq<FrameView>,
    pub broken: bool,
}

/// What `gif::DecodeOptions::read_info`, set to indexed output, makes of a
/// file's bytes; `None` where it refuses them.
pub uninterp spec fn gif_contents(bytes: Seq<u8>) -> Option<GifView>;

/// The global palette that a stream holds.
pub uninterp spec fn global_colours(d: &FrameStream) -> Option<Seq<u8>>;

/// The frames that a stream will still hand out, in their order, before it
/// reports the end of the stream or an error.
pub uninterp spec fn frames_ahead(d: &FrameStream) -> Seq<FrameView>;

/// Whether a stream reports an error, and not the end of the stream, after
/// the frames it will still hand out.
pub uninterp spec fn ends_in_error(d: &FrameStream) -> bool;

/// Why a conversion failed.
#[derive(Clone, Copy, Debug, PartialEq, Eq, Structural)]
pub enum ConvertError {
    /// The bytes are no GIF stream, or the stream is damaged.
    Decode,
    /// The global palette is not made of whole triples, or has over 256.
    Palette,
    /// A frame's pixels do not fill its width times its height.
    FrameSize,
}

/// `gif::DecodeOptions::read_info` on a slice, with indexed colour output.
/// Claims that whether it succeeds, and the palette and frames that the
/// decoder will hand out, depend on the bytes alone.
#[verifier::external_body]
fn open_decoder<'a>(bytes: &'a [u8]) -> (r: Result<FrameStream<'a>, gif::DecodingError>)
    ensures
        match r {
            Ok(d) => gif_contents(bytes@) == Some(
                GifView {
                    palette: global_colours(&d),
                    frames: frames_ahead(&d),
                    broken: ends_in_error(&d),
                },
            ),
            Err(_) => gif_contents(bytes@).is_none(),
        },
{
    let mut options = gif::DecodeOptions::new();
    options.set_color_output(gif::ColorOutput::Indexed);
    options.read_info(bytes).map(|decoder| FrameStream { decoder })
}

/// `gif::Decoder::global_palette`, copied to a vector. Claims that it hands
/// out the palette that the decoder holds.
#[verifier::external_body]
fn global_palette(d: &FrameStream) -> (r: Option<Vec<u8>>)
    ensures
        match r {
            Some(rgb) => global_colours(d) == Some(rgb@),
            None => global_colours(d).is_none(),
        },
{
    d.decoder.global_palette().map(|rgb| rgb.to_vec())
}

/// `gif::Decoder::read_next_frame`, the frame's width, height and buffer
/// copied out. Claims that a frame is the first of those ahead and leaves
/// the rest ahead, and that the end of the stream and an error come when
/// none is ahead.
#[verifier::external_body]
fn next_frame(d: &mut FrameStream) -> (r: Result<
    Option<(u16, u16, Vec<u8>)>,
    gif::DecodingError,
>)
    ensures
        match r {
            Ok(Some(f)) => {
                &&& frames_ahead(old(d)).len() > 0
                &&& frames_ahead(old(d))[0] == (FrameView {
                    width: f.0,
                    height: f.1,
                    pixels: f.2@,
                })
                &&& frames_ahead(final(d)) == frames_ahead(old(d)).skip(1)
                &&& ends_in_error(final(d)) == ends_in_error(old(d))
            },
            Ok(None) => frames_ahead(old(d)).len() == 0 && !ends_in_error(old(d)),
            Err(_) => frames_ahead(old(d)).len() == 0 && ends_in_error(old(d)),
        },
{
    d.decoder.read_next_frame().map(|next| next.map(|f| (f.width, f.height, f.buffer.to_vec())))
}

/// Whether each of `frames` has one index for each pixel.
pub open spec fn frames_valid(frames: Seq<FrameView>) -> bool {
    forall|i: int|
        0 <= i < frames.len() ==> valid_size(
            (#[trigger] frames[i]).width,
            frames[i].height,
            frames[i].pixels.len(),
        )
}

/// The outputs for an image: the colour table where the image has a global
/// palette and nothing in its place where it has none, then every frame.
pub open spec fn rendered(
    label: Seq<char>,
    listing: bool,
    bin: bool,
    palette: Option<Seq<u8>>,
    frames: Seq<FrameView>,
) -> SinksView {
    let start = SinksView::opened(listing, bin);
    match palette {
        Some(rgb) => start.with_palette(label, rgb).with_frames(label, frames),
        None => start.with_frames(label, frames),
    }
}

/// What each of `frames` holds.
pub open spec fn frame_views(frames: Seq<Frame>) -> Seq<FrameView> {
    frames.map_values(|f: Frame| f@)
}

/// What a palette holds, where there is one.
pub open spec fn palette_view(palette: Option<&Palette>) -> Option<Seq<u8>> {
    match palette {
        Some(p) => Some(p@),
        None => None,
    }
}

/// Writes a decoded image to fresh outputs: the colour table where there is
/// a palette, then every frame in its order, the sections of each under the
/// same names.
pub fn encode(
    label: &str,
    listing: bool,
    bin: bool,
    palette: Option<&Palette>,
    frames: &[Frame],
) -> (sinks: Sinks)
    requires
        palette matches Some(p) ==> p.wf(),
        forall|i: int| 0 <= i < frames@.len() ==> (#[trigger] frames@[i]).wf(),
    ensures
        sinks@ == rendered(label@, listing, bin, palette_view(palette), frame_views(frames@)),
{
    let mut sinks = Sinks::open(listing, bin);
    match palette {
        Some(p) => {
            sinks.write_palette(label, p);
        },
        None => {},
    }
    let ghost start = sinks@;
    let ghost views = frame_views(frames@);
    let n: usize = frames.len();
    let mut i: usize = 0;
    while i < n
        invariant
            n == frames@.len(),
            i <= n,
            views == frame_views(frames@),
            forall|k: int| 0 <= k < frames@.len() ==> (#[trigger] frames@[k]).wf(),
            sinks@ == start.with_frames(label@, views.take(i as int)),
        decreases n - i,
    {
        sinks.write_frame(label, &frames[i]);
        proof {
            assert(views.take(i + 1).drop_last() =~= views.take(i as int));
            assert(views.take(i + 1).last() == frames@[i as int]@);
        }
        i += 1;
    }
    assert(views.take(n as int) =~= views);
    sinks
}

/// What a conversion returns for what the decoder makes of the file.
pub open spec fn conversion(label: Seq<char>, listing: bool, bin: bool, contents: Option<GifView>)
    -> Result<SinksView, ConvertError> {
    match contents {
        None => Err(ConvertError::Decode),
        Some(image) => {
            if image.palette matches Some(rgb) && !valid_rgb(rgb) {
                Err(ConvertError::Palette)
            } else if !frames_valid(image.frames) {
                Err(ConvertError::FrameSize)
            } else if image.broken {
                Err(ConvertError::Decode)
            } else {
                Ok(rendered(label, listing, bin, image.palette, image.frames))
            }
        },
    }
}

/// The view of a conversion's result.
pub open spec fn outcome(r: Result<Sinks, ConvertError>) -> Result<SinksView, ConvertError> {
    match r {
        Ok(sinks) => Ok(sinks@),
        Err(e) => Err(e),
    }
}

/// Converts the bytes of a GIF file. The sections of the listing are named
/// after `label`; `listing` and `bin` switch the outputs on.
pub fn convert(bytes: &[u8], label: &str, listing: bool, bin: bool) -> (r: Result<
    Sinks,
    ConvertError,
>)
    ensures
        outcome(r) == conversion(label@, listing, bin, gif_contents(bytes@)),
{
    let mut decoder = match open_decoder(bytes) {
        Ok(d) => d,
        Err(_) => {
            return Err(ConvertError::Decode);
        },
    };
    let ghost image = gif_contents(bytes@).unwrap();
    let mut sinks = Sinks::open(listing, bin);
    match global_palette(&decoder) {
        Some(rgb) => {
            match Palette::new(rgb) {
                Some(palette) => {
                    sinks.write_palette(label, &palette);
                },
                None => {
                    return Err(ConvertError::Palette);
                },
            }
        },
        None => {},
    }
    let ghost start = sinks@;
    let ghost done: Seq<FrameView> = Seq::empty();
    loop
        invariant
            image.palette matches Some(rgb) ==> valid_rgb(rgb),
            image.frames == done + frames_ahead(&decoder),
            image.broken == ends_in_error(&decoder),
            frames_valid(done),
            rendered(label@, listing, bin, image.palette, image.frames) == start.with_frames(
                label@,
                image.frames,
            ),
            sinks@ == start.with_frames(label@, done),
            gif_contents(bytes@) == Some(image),
        decreases frames_ahead(&decoder).len(),
    {
        let ghost ahead = frames_ahead(&decoder);
        match next_frame(&mut decoder) {
            Ok(Some(raw)) => {
                let ghost view = ahead[0];
                assert(image.frames[done.len() as int] == view);
                match Frame::new(raw.0, raw.1, raw.2) {
                    Some(frame) => {
                        sinks.write_frame(label, &frame);
                        proof {
                            let next = done.push(view);
                            assert(next.drop_last() =~= done);
                            assert(next + ahead.skip(1) =~= image.frames);
                            done = next;
                        }
                    },
                    None => {
                        return Err(ConvertError::FrameSize);
                    },
                }
            },
            Ok(None) => {
                assert(image.frames =~= done);
                return Ok(sinks);
            },
            Err(_) => {
                assert(image.frames =~= done);
                return Err(ConvertError::Decode);
            },
        }
    }
}

/// Converting the same bytes twice, under the same label and with the same
/// outputs switched on, gives the same outputs or the same error.
pub proof fn lemma_convert_repeatable(
    bytes: Seq<u8>,
    label: Seq<char>,
    listing: bool,
    bin: bool,
    first: Result<SinksView, ConvertError>,
    second: Result<SinksView, ConvertError>,
)
    requires
        first == conversion(label, listing, bin, gif_contents(bytes)),
        second == conversion(label, listing, bin, gif_contents(bytes)),
    ensures
        first == second,
{
}

/// Frames leave the binary colour table as it is.
pub proof fn lemma_frames_keep_clut(start: SinksView, label: Seq<char>, frames: Seq<FrameView>)
    ensures
        start.with_frames(label, frames).clut == start.clut,
    decreases frames.len(),
{
    if frames.len() > 0 {
        lemma_frames_keep_clut(start, label, frames.drop_last());
    }
}

/// An image without a global palette has no colour table at all: the binary
/// table stays empty, without a size byte, and the listing holds the frames
/// and nothing before them.
pub proof fn lemma_no_palette(label: Seq<char>, listing: bool, bin: bool, frames: Seq<FrameView>)
    ensures
        rendered(label, listing, bin, None, frames) == SinksView::opened(listing, bin).with_frames(
            label,
            frames,
        ),
        bin ==> rendered(label, listing, bin, None, frames).clut == Some(Seq::<u8>::empty()),
        !bin ==> rendered(label, listing, bin, None, frames).clut.is_none(),
{
    lemma_frames_keep_clut(SinksView::opened(listing, bin), label, frames);
}

} // verus!
