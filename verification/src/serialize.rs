//! The contract that every serialisable part of a page shares.

use vstd::prelude::*;
use crate::error::PageError;

verus! {

/// A value that can be written into a byte buffer, from the start of the
/// buffer on.
///
/// An implementation decides whether the value fits before it writes
/// anything, so a refused call leaves the buffer as it was. The bytes that
/// follow what was written are not aligned for a next value: whoever writes
/// on pads first.
pub trait MySerialize {
    /// Number of bytes from the start of the buffer to the end of the last
    /// byte written.
    spec fn encoded_size(&self) -> nat;

    /// The error with which a buffer of `buffer_len` bytes is refused, if it
    /// is refused.
    spec fn refusal(&self, buffer_len: nat) -> Option<PageError>;

    /// What a buffer that held `buffer` holds once the value is written.
    spec fn image(&self, buffer: Seq<u8>) -> Seq<u8>;

    /// Writes the value into `buffer` and returns the number of bytes from the
    /// start of the buffer that the value takes. A buffer shorter than that
    /// is refused with `BufferTooSmall`, and a refused call of any kind
    /// changes nothing.
    fn serialize(&self, buffer: &mut [u8]) -> (written: Result<usize, PageError>)
        ensures
            match written {
                Ok(count) => {
                    &&& self.refusal(old(buffer)@.len()) is None
                    &&& count == self.encoded_size()
                    &&& final(buffer)@ == self.image(old(buffer)@)
                },
                Err(error) => {
                    &&& self.refusal(old(buffer)@.len()) == Some(error)
                    &&& final(buffer)@ == old(buffer)@
                },
            },
            old(buffer)@.len() < self.encoded_size() ==> written == Err::<usize, PageError>(
                PageError::BufferTooSmall,
            ),
            final(buffer)@.len() == old(buffer)@.len(),
    ;
}

} // verus!
