//! The failures that the page codecs and the page bookkeeping report.

use vstd::prelude::*;

verus! {

/// Why a page operation was refused. The operation that reports one of these
/// has changed nothing.
#[derive(Clone, Copy, Debug, PartialEq, Eq, Structural)]
pub enum PageError {
    /// The buffer is shorter than the bytes that have to be written or read.
    BufferTooSmall,
    /// The page-type tag of a header is none of 0 to 4.
    InvalidPageType,
    /// The keys of an index page are not all of one length.
    KeySizeMismatch,
    /// A count does not fit the field or the counter that has to hold it.
    CountOverflow,
}

} // verus!
