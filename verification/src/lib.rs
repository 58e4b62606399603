//! Renders a waveform-style image from the magnitudes of an audio signal's
//! frequency-domain transform.
//!
//! The pipeline takes the per-coefficient magnitudes of a full discrete
//! Fourier transform of the decoded samples, buckets them into one bucket per
//! output column, maps each bucket's mean magnitude to a column height and a
//! color, and rasterizes the columns into a fixed-size RGB image buffer.
//! Decoding the audio container and computing the transform itself happen
//! outside this crate; the library works on the plain integer magnitudes it
//! is handed.

pub mod color;
pub mod columns;
pub mod pipeline;
pub mod raster;

#[allow(unused_imports)]
use vstd::prelude::*;

verus! {

/// The number of pixel columns of the output image.
pub const IMAGE_WIDTH: usize = 800;

/// The number of pixel rows of the output image.
pub const IMAGE_HEIGHT: usize = 200;

/// The errors that the rendering pipeline itself can raise. Decoding and
/// encoding failures belong to the callers that do the file work.
#[derive(Clone, Copy, Debug, PartialEq, Eq, Structural)]
pub enum WaveformError {
    /// The input holds fewer magnitudes than there are output columns, so no
    /// column owns even one coefficient.
    DegenerateInputError,
    /// A column's computed height exceeds the image height, so the column
    /// cannot be drawn inside the raster.
    OutOfRangeError,
}

} // verus!
