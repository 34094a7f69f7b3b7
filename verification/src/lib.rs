//! Image metadata extraction and geometric transforms (crop and
//! aspect-preserving resize) over in-memory encoded images, with full support
//! for animated GIF sequences.
//!
//! The heart of the crate is the frame compositor: animated containers store
//! each frame as a sparse delta against a persistent canvas, governed by a
//! per-frame disposal rule, and every spatial transform must be applied to the
//! fully composited canvas, not to the raw delta.  The compositor, the
//! geometric transforms and the metadata rules are verified; the codec calls
//! of the `gif` and `image` crates stand behind small trusted wrappers.
//!
//! File reading and writing is left to the caller: every operation here takes
//! the encoded bytes and returns encoded bytes.

use vstd::prelude::*;

pub use compositor::{CompositedFrame, Compositor, Disposal, FrameDelta};
pub use meta::{info, Info};
pub use ops::{crop, resize};
pub use sniff::{sniff, Format};

pub mod compositor;
pub mod geometry;
pub mod gifio;
pub mod meta;
pub mod ops;
pub mod pixels;
pub mod sniff;
pub mod stillio;

verus! {

/// The failures an operation can report.  Bounds validation happens eagerly,
/// before any decoding work, and is reported as `OutOfBounds` so that callers
/// can tell a bad request from a bad file.
#[derive(Clone, Copy, Debug, PartialEq, Eq, Structural)]
pub enum ImgError {
    /// No known magic-byte prefix matched the input.
    UnrecognizedFormat,
    /// The container or the codec-level payload is malformed.
    DecodeError,
    /// The requested geometry does not fit the source dimensions.
    OutOfBounds,
    /// The output container could not be assembled.
    EncodeError,
}

} // verus!
