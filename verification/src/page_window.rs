//! A window on the bytes of one page: its header and what follows it.

use vstd::prelude::*;
use core::marker::PhantomData;
use crate::bytes::{be_bytes, number_at, overwrite, read_u64, write_u64};
use crate::error::PageError;
use crate::header::PageHeader;
use crate::metadata::MetadataPage;

verus! {

/// The bytes of a page, split behind the padded header. `T` is the kind of
/// body that the page holds.
pub struct PageWindow<'a, T> {
    /// The padded header: the first `PageHeader::SIZE` bytes of the page.
    pub header_bytes: &'a mut [u8],
    /// The body: everything behind the padded header.
    pub page_bytes: &'a mut [u8],
    pub _phantom: PhantomData<T>,
}

impl<'a, T> PageWindow<'a, T> {
    /// Opens a window on `bytes`. A page shorter than the padded header is
    /// refused with `BufferTooSmall`. What is written through the window is
    /// written to `bytes`.
    pub fn new(bytes: &'a mut Vec<u8>) -> (window: Result<PageWindow<'a, T>, PageError>)
        ensures
            match window {
                Ok(window) => {
                    &&& old(bytes)@.len() >= PageHeader::SIZE
                    &&& window.header_bytes@ == old(bytes)@.subrange(0, PageHeader::SIZE as int)
                    &&& window.page_bytes@ == old(bytes)@.subrange(
                        PageHeader::SIZE as int,
                        old(bytes)@.len() as int,
                    )
                    &&& final(bytes)@ == final(window.header_bytes)@ + final(window.page_bytes)@
                },
                Err(error) => {
                    &&& error == PageError::BufferTooSmall
                    &&& old(bytes)@.len() < PageHeader::SIZE
                    &&& final(bytes)@ == old(bytes)@
                },
            },
    {
        if bytes.len() < PageHeader::SIZE {
            return Err(PageError::BufferTooSmall);
        }
        let (header_bytes, page_bytes) = bytes.as_mut_slice().split_at_mut(PageHeader::SIZE);
        Ok(PageWindow { header_bytes, page_bytes, _phantom: PhantomData })
    }
}

impl<'a> PageWindow<'a, MetadataPage> {
    /// The number of pages ever allocated, as the metadata page records it.
    /// A body that ends before that field is refused with `BufferTooSmall`.
    pub fn read_total_pages(&self) -> (total_pages: Result<u64, PageError>)
        ensures
            total_pages == if old(self.page_bytes)@.len() < MetadataPage::SIZE {
                Err::<u64, PageError>(PageError::BufferTooSmall)
            } else {
                Ok::<u64, PageError>(number_at(old(self.page_bytes)@, 24, 8) as u64)
            },
            old(self.page_bytes)@.len() >= MetadataPage::SIZE ==> number_at(
                old(self.page_bytes)@,
                24,
                8,
            ) <= u64::MAX,
    {
        if self.page_bytes.len() < MetadataPage::SIZE {
            return Err(PageError::BufferTooSmall);
        }
        Ok(read_u64(self.page_bytes, MetadataPage::TOTAL_PAGES_OFFSET))
    }

    /// Records `new_total_pages` as the number of pages ever allocated, and
    /// closes the window. A body that ends before that field is refused with
    /// `BufferTooSmall`, and nothing is written.
    pub fn update_total_pages(self, new_total_pages: u64) -> (updated: Result<(), PageError>)
        ensures
            final(self.header_bytes)@ == old(self.header_bytes)@,
            match updated {
                Ok(_) => {
                    &&& old(self.page_bytes)@.len() >= MetadataPage::SIZE
                    &&& final(self.page_bytes)@ == overwrite(
                        old(self.page_bytes)@,
                        24,
                        be_bytes(new_total_pages as nat, 8),
                    )
                },
                Err(error) => {
                    &&& error == PageError::BufferTooSmall
                    &&& old(self.page_bytes)@.len() < MetadataPage::SIZE
                    &&& final(self.page_bytes)@ == old(self.page_bytes)@
                },
            },
    {
        if self.page_bytes.len() < MetadataPage::SIZE {
            return Err(PageError::BufferTooSmall);
        }
        write_u64(self.page_bytes, MetadataPage::TOTAL_PAGES_OFFSET, new_total_pages);
        Ok(())
    }
}

} // verus!
