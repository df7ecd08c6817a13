//! Errors reported while building array handles from IPC metadata.
//!
//! Every kind is detected before any buffer range is exposed: construction
//! aborts on the first error and hands nothing back.

use vstd::prelude::*;

verus! {

/// Why a construction was rejected.
#[derive(Clone, Copy, Debug, PartialEq, Eq, Structural)]
pub enum Error {
    /// The buffer-descriptor queue ran out before the schema was done.
    ExpectedBuffer,
    /// The field-node queue ran out before the schema was done.
    ExpectedNode,
    /// A signed wire value (offset, length, row count, null count) was
    /// negative, or too large for this machine's address width.
    NegativeFooterLength,
    /// A descriptor's byte range reaches past the source extent.
    OutOfBounds,
    /// A value buffer cannot be reinterpreted as its element type: its byte
    /// length is not a whole multiple of the element width, or the bytes are
    /// not suitably addressed.
    Misaligned,
    /// A typed value buffer holds fewer elements than the row count requires.
    TooSmall,
    /// A dictionary column names an id absent from the supplied lookup.
    MissingDictionary,
    /// The schema names a physical layout this bridge does not map.
    UnsupportedType,
}

impl Error {
    /// A short, fixed description of the error kind.
    pub fn describe(&self) -> (r: &'static str)
        ensures
            r@.len() > 0,
    {
        let s = match self {
            Error::ExpectedBuffer => "expected a buffer descriptor",
            Error::ExpectedNode => "expected a field node",
            Error::NegativeFooterLength => "negative footer length",
            Error::OutOfBounds => "buffer out of bounds",
            Error::Misaligned => "buffer not aligned for zero-copy",
            Error::TooSmall => "buffer too small for the row count",
            Error::MissingDictionary => "missing dictionary",
            Error::UnsupportedType => "unsupported physical type",
        };
        proof {
            reveal_strlit("expected a buffer descriptor");
            reveal_strlit("expected a field node");
            reveal_strlit("negative footer length");
            reveal_strlit("buffer out of bounds");
            reveal_strlit("buffer not aligned for zero-copy");
            reveal_strlit("buffer too small for the row count");
            reveal_strlit("missing dictionary");
            reveal_strlit("unsupported physical type");
        }
        s
    }
}

} // verus!
