//! Encoding of an indexed-colour image as an assembly listing and as a raw
//! binary pair (palette table and image data).
//!
//! The textual and the binary form are produced from the same values in the
//! same pass; every byte listed in the text is the byte written to the
//! binary form.

pub mod hex;
pub mod directive;
pub mod palette;
pub mod frame;
pub mod sinks;
pub mod convert;
pub mod label;
