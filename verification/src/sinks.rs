//! The three outputs, each of which may be switched off: the listing, the
//! binary colour table and the binary image.

use vstd::prelude::*;
use crate::frame::{Frame, FrameView};
use crate::palette::{clut_bytes, clut_text, Palette};

verus! {

/// The outputs of a run. An output that is switched off stays `None`.
pub struct Sinks {
    /// The assembly listing.
    pub listing: Option<String>,
    /// The binary colour table.
    pub clut: Option<Vec<u8>>,
    /// The binary image.
    pub img: Option<Vec<u8>>,
}

/// What the outputs hold.
pub struct SinksView {
    pub listing: Option<Seq<char>>,
    pub clut: Option<Seq<u8>>,
    pub img: Option<Seq<u8>>,
}

impl View for Sinks {
    type V = SinksView;

    open spec fn view(&self) -> SinksView {
        SinksView {
            listing: match self.listing {
                Some(text) => Some(text@),
                None => None,
            },
            clut: match self.clut {
                Some(bytes) => Some(bytes@),
                None => None,
            },
            img: match self.img {
                Some(bytes) => Some(bytes@),
                None => None,
            },
        }
    }
}

impl SinksView {
    /// Empty outputs: the listing where `listing` asks for it, the two binary
    /// outputs where `bin` does.
    pub open spec fn opened(listing: bool, bin: bool) -> SinksView {
        SinksView {
            listing: if listing {
                Some(Seq::empty())
            } else {
                None
            },
            clut: if bin {
                Some(Seq::empty())
            } else {
                None
            },
            img: if bin {
                Some(Seq::empty())
            } else {
                None
            },
        }
    }

    /// The outputs after the colour table `rgb` was written.
    pub open spec fn with_palette(self, label: Seq<char>, rgb: Seq<u8>) -> SinksView {
        SinksView {
            listing: match self.listing {
                Some(text) => Some(text + clut_text(label, rgb)),
                None => None,
            },
            clut: match self.clut {
                Some(bytes) => Some(bytes + clut_bytes(rgb)),
                None => None,
            },
            img: self.img,
        }
    }

    /// The outputs after `frame` was written.
    pub open spec fn with_frame(self, label: Seq<char>, frame: FrameView) -> SinksView {
        SinksView {
            listing: match self.listing {
                Some(text) => Some(text + frame.text(label)),
                None => None,
            },
            clut: self.clut,
            img: match self.img {
                Some(bytes) => Some(bytes + frame.bytes()),
                None => None,
            },
        }
    }

    /// The outputs after each of `frames` was written, in their order.
    pub open spec fn with_frames(self, label: Seq<char>, frames: Seq<FrameView>) -> SinksView
        decreases frames.len(),
    {
        if frames.len() == 0 {
            self
        } else {
            self.with_frames(label, frames.drop_last()).with_frame(label, frames.last())
        }
    }
}

/// The outputs that a run writes: the listing if it is asked for or if
/// nothing is, the binary outputs if they are asked for.
pub fn select_outputs(listing: bool, bin: bool) -> (r: (bool, bool))
    ensures
        r.0 == (listing || !bin),
        r.1 == bin,
{
    (listing || !bin, bin)
}

impl Sinks {
    /// Empty outputs: the listing where `listing` asks for it, the two binary
    /// outputs where `bin` does.
    pub fn open(listing: bool, bin: bool) -> (s: Sinks)
        ensures
            s@ == SinksView::opened(listing, bin),
    {
        Sinks {
            listing: if listing {
                Some(String::new())
            } else {
                None
            },
            clut: if bin {
                Some(Vec::new())
            } else {
                None
            },
            img: if bin {
                Some(Vec::new())
            } else {
                None
            },
        }
    }

    /// Writes the colour table to the listing and to the binary table, each
    /// where it is switched on.
    pub fn write_palette(&mut self, label: &str, palette: &Palette)
        requires
            palette.wf(),
        ensures
            final(self)@ == old(self)@.with_palette(label@, palette@),
    {
        match &mut self.listing {
            Some(text) => {
                palette.write_text(text, label);
            },
            None => {},
        }
        match &mut self.clut {
            Some(bytes) => {
                palette.write_bytes(bytes);
            },
            None => {},
        }
    }

    /// Writes a frame to the listing and to the binary image, each where it
    /// is switched on.
    pub fn write_frame(&mut self, label: &str, frame: &Frame)
        requires
            frame.wf(),
        ensures
            final(self)@ == old(self)@.with_frame(label@, frame@),
    {
        match &mut self.listing {
            Some(text) => {
                frame.write_text(text, label);
            },
            None => {},
        }
        match &mut self.img {
            Some(bytes) => {
                frame.write_bytes(bytes);
            },
            None => {},
        }
    }
}

} // verus!
