//! The top-level chunks: what the scanner tells apart, and lossless
//! in-memory forms of the `fmt `, `fact` and `data` chunks.
use vstd::prelude::*;
use super::WavFmt;

pub mod data;
pub mod fact;
pub mod fmt;

verus! {

/// A chunk the scanner has stepped over.
#[derive(Debug, Clone, Copy, PartialEq, Eq, Structural)]
pub enum WavChunks {
    /// A `fmt ` chunk, with the stream it describes.
    FMT(WavFmt),
    /// A `fact` chunk.
    FACT,
    /// A chunk of any other id, stepped over with its pad byte.
    SKIPPED,
    /// The header of the `data` chunk, with its declared size.
    DATA(u32),
}

} // verus!
