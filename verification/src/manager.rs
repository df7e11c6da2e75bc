//! The paged file manager: what is allocated, what is cached, and which
//! bytes have to reach the file.
//!
//! The manager decides and the caller moves the bytes: a page is read
//! through a loader that the caller hands in, and every operation that
//! changes the file returns the page writes that the caller has to perform,
//! in order. Page `i` of a file lies at byte `i * page_size`.

use vstd::prelude::*;
use crate::bytes::{be_bytes, bytes_at, number_at, overwrite};
use crate::config::PagedFileManagerConfig;
use crate::data_page::{lemma_data_page_round_trip, parse_data_page, DataPage, DataPageView};
use crate::error::PageError;
use crate::header::{lemma_header_round_trip, PageHeader};
use crate::index_page::{child_count_offset, lemma_index_page_layout, IndexPage, IndexPageView};
use crate::layout::{lemma_padding_to, padding_needed_from_size};
use crate::metadata::{lemma_metadata_layout_in_image, MetadataPage};
use crate::page_type::PageType;
use crate::page_window::PageWindow;
use crate::pool::{BufferPool, PoolState};
use crate::serialize::MySerialize;

verus! {

/// A page of `page_size` zero bytes.
pub open spec fn blank_page(page_size: nat) -> Seq<u8> {
    Seq::new(page_size, |i: int| 0u8)
}

/// The bytes of a new page of `page_size` bytes that starts with `header` and
/// holds `body` from byte `body_offset` on; every other byte is zero.
pub open spec fn page_image<B: MySerialize>(
    header: PageHeader,
    body: B,
    body_offset: nat,
    page_size: nat,
) -> Seq<u8> {
    let with_header = header.image(blank_page(page_size));
    with_header.subrange(0, body_offset as int) + body.image(
        with_header.subrange(body_offset as int, page_size as int),
    )
}

/// The error with which a page of `page_size` bytes refuses `header` and
/// `body`, if it does: the header is tried first, then the body in what is
/// left behind `body_offset`.
pub open spec fn page_refusal<B: MySerialize>(
    header: PageHeader,
    body: B,
    body_offset: nat,
    page_size: nat,
) -> Option<PageError> {
    if header.refusal(page_size) is Some {
        header.refusal(page_size)
    } else if page_size < body_offset {
        Some(PageError::BufferTooSmall)
    } else {
        body.refusal((page_size - body_offset) as nat)
    }
}

/// A page of `page_size` zero bytes.
pub fn zeroed_page(page_size: u32) -> (page: Vec<u8>)
    ensures
        page@ == blank_page(page_size as nat),
{
    let page: Vec<u8> = vec![0u8; page_size as usize];
    assert(page@ =~= blank_page(page_size as nat));
    page
}

/// Builds a new page of `page_size` bytes: zeros, then `header` at byte 0 and
/// `body` at byte `body_offset`. A page too small for either is refused with
/// `BufferTooSmall`, and a body that cannot be serialised with its own error.
pub fn build_page<B: MySerialize>(
    header: &PageHeader,
    body: &B,
    body_offset: usize,
    page_size: u32,
) -> (page: Result<Vec<u8>, PageError>)
    ensures
        match page {
            Ok(page) => {
                &&& page_refusal(*header, *body, body_offset as nat, page_size as nat) is None
                &&& page@ == page_image(*header, *body, body_offset as nat, page_size as nat)
                &&& page@.len() == page_size
            },
            Err(error) => page_refusal(*header, *body, body_offset as nat, page_size as nat)
                == Some(error),
        },
{
    let mut page_buffer: Vec<u8> = zeroed_page(page_size);
    match header.serialize(page_buffer.as_mut_slice()) {
        Ok(_) => {},
        Err(error) => {
            return Err(error);
        },
    }
    if page_buffer.len() < body_offset {
        return Err(PageError::BufferTooSmall);
    }
    let ghost with_header: Seq<u8> = page_buffer@;
    let (head, tail) = page_buffer.as_mut_slice().split_at_mut(body_offset);
    match body.serialize(tail) {
        Ok(_) => {},
        Err(error) => {
            return Err(error);
        },
    }
    Ok(page_buffer)
}

/// Length of the metadata page up to the end of its last field: the padded
/// header and the metadata behind it.
pub const METADATA_PAGE_MIN_SIZE: usize = 64;

/// The number of pages ever allocated, as the metadata page `page` records
/// it: the 8 bytes at offset 56, where the last field of the metadata lies
/// behind the padded header.
pub open spec fn total_pages_in(page: Seq<u8>) -> nat {
    number_at(page, 56, 8)
}

/// The error with which the metadata page `page` refuses an allocation, if
/// it does: a page that ends before its last field, or a number of pages
/// that cannot grow.
pub open spec fn allocation_refusal(page: Seq<u8>) -> Option<PageError> {
    if page.len() < METADATA_PAGE_MIN_SIZE {
        Some(PageError::BufferTooSmall)
    } else if total_pages_in(page) >= u64::MAX {
        Some(PageError::CountOverflow)
    } else {
        None
    }
}

/// The identifier that an allocation gives out on the metadata page `page`:
/// one more than the number of pages recorded.
pub open spec fn next_page_id(page: Seq<u8>) -> nat {
    total_pages_in(page) + 1
}

/// The metadata page `page` after an allocation: the number of pages is the
/// identifier that was given out, everything else is as before.
pub open spec fn page_after_allocation(page: Seq<u8>) -> Seq<u8> {
    overwrite(page, 56, be_bytes(next_page_id(page), 8))
}

/// The page writes of an allocation that finds `metadata` as the metadata
/// page: the page with its new number of pages, then zeros in the place of
/// the new page.
pub open spec fn allocation_writes(metadata: Seq<u8>, page_size: nat) -> Seq<(u64, Seq<u8>)> {
    seq![
        (0u64, page_after_allocation(metadata)),
        (next_page_id(metadata) as u64, blank_page(page_size)),
    ]
}

/// Takes the next page identifier from the metadata page `page_bytes` and
/// records it there as the new number of pages. A page that ends before the
/// number of pages is refused with `BufferTooSmall`, a number of pages that
/// cannot grow with `CountOverflow`, and a refused call changes nothing.
pub fn bump_total_pages(page_bytes: &mut Vec<u8>) -> (new_page_id: Result<u64, PageError>)
    ensures
        match new_page_id {
            Ok(new_page_id) => {
                &&& allocation_refusal(old(page_bytes)@) is None
                &&& new_page_id == next_page_id(old(page_bytes)@)
                &&& final(page_bytes)@ == page_after_allocation(old(page_bytes)@)
            },
            Err(error) => {
                &&& allocation_refusal(old(page_bytes)@) == Some(error)
                &&& final(page_bytes)@ == old(page_bytes)@
            },
        },
{
    let ghost before: Seq<u8> = page_bytes@;
    let metadata_page_window = match PageWindow::<MetadataPage>::new(page_bytes) {
        Ok(window) => window,
        Err(error) => {
            return Err(error);
        },
    };
    proof {
        if before.len() >= 64 {
            assert(metadata_page_window.page_bytes@.subrange(24, 32) =~= before.subrange(56, 64));
        }
        assert(metadata_page_window.header_bytes@ + metadata_page_window.page_bytes@ =~= before);
    }
    let total_pages: u64 = match metadata_page_window.read_total_pages() {
        Ok(total_pages) => total_pages,
        Err(error) => {
            return Err(error);
        },
    };
    if total_pages == u64::MAX {
        return Err(PageError::CountOverflow);
    }
    let new_page_id: u64 = total_pages + 1;
    let ghost body: Seq<u8> = metadata_page_window.page_bytes@;
    let ghost head: Seq<u8> = metadata_page_window.header_bytes@;
    match metadata_page_window.update_total_pages(new_page_id) {
        Ok(_) => {},
        Err(error) => {
            return Err(error);
        },
    }
    assert(head + overwrite(body, 24, be_bytes(new_page_id as nat, 8)) =~= page_after_allocation(
        before,
    ));
    Ok(new_page_id)
}

/// Byte offset of page `page_id` in a file with pages of `page_size` bytes;
/// `None` where the offset is not a `u64`.
pub fn page_offset(page_id: u64, page_size: u32) -> (offset: Option<u64>)
    ensures
        match offset {
            Some(offset) => offset == page_id * page_size,
            None => page_id * page_size > u64::MAX,
        },
{
    page_id.checked_mul(page_size as u64)
}

/// One page that has to be written to the file, at byte `page_id * page_size`.
#[derive(Debug)]
pub struct PageWrite {
    /// Identifier of the page.
    pub page_id: u64,
    /// The bytes of the page.
    pub data: Vec<u8>,
}

impl View for PageWrite {
    type V = (u64, Seq<u8>);

    open spec fn view(&self) -> (u64, Seq<u8>) {
        (self.page_id, self.data@)
    }
}

/// The page writes of `writes`, as plain values.
pub open spec fn write_views(writes: Seq<PageWrite>) -> Seq<(u64, Seq<u8>)> {
    Seq::new(writes.len(), |i: int| writes[i]@)
}

/// What an allocation gives: the identifier of the new page, and the page
/// writes that bring the file up to date, to be performed in order.
#[derive(Debug)]
pub struct Allocation {
    /// Identifier of the new page.
    pub page_id: u64,
    /// The pages to write, in order.
    pub writes: Vec<PageWrite>,
}

/// Why the manager could not do what was asked.
#[derive(Debug)]
pub enum ManagerError<E> {
    /// The loader could not read a page; its error is handed on.
    Io(E),
    /// A page refused the operation.
    Page(PageError),
}

/// Takes a new page identifier from the metadata page `page_bytes` of a file
/// with pages of `page_size` bytes, and says what has to be written: the
/// metadata page with its new number of pages, then a page of zeros in the
/// place of the new page.
pub fn allocate_in(page_size: u32, page_bytes: &mut Vec<u8>) -> (allocation: Result<
    Allocation,
    PageError,
>)
    ensures
        match allocation {
            Ok(allocation) => {
                &&& allocation_refusal(old(page_bytes)@) is None
                &&& allocation.page_id == next_page_id(old(page_bytes)@)
                &&& final(page_bytes)@ == page_after_allocation(old(page_bytes)@)
                &&& write_views(allocation.writes@) == allocation_writes(
                    old(page_bytes)@,
                    page_size as nat,
                )
            },
            Err(error) => {
                &&& allocation_refusal(old(page_bytes)@) == Some(error)
                &&& final(page_bytes)@ == old(page_bytes)@
            },
        },
{
    let new_page_id: u64 = match bump_total_pages(page_bytes) {
        Ok(new_page_id) => new_page_id,
        Err(error) => {
            return Err(error);
        },
    };
    let to_write: Vec<u8> = page_bytes.clone();
    let empty_page: Vec<u8> = zeroed_page(page_size);
    let mut writes: Vec<PageWrite> = Vec::new();
    writes.push(PageWrite { page_id: PagedFileManager::METADATA_PAGE_ID, data: to_write });
    writes.push(PageWrite { page_id: new_page_id, data: empty_page });
    proof {
        assert(to_write@ =~= page_bytes@);
        assert(write_views(writes@) =~= seq![
            (0u64, page_after_allocation(old(page_bytes)@)),
            (new_page_id, blank_page(page_size as nat)),
        ]);
    }
    Ok(Allocation { page_id: new_page_id, writes })
}

/// The header of a new data page: the free space starts behind the empty
/// body.
pub open spec fn new_data_page_header(page_id: u64) -> PageHeader {
    PageHeader { page_id, page_type: PageType::Data, checksum: 0, lsn: 0, free_space_pointer: 36 }
}

/// The bytes of a new data page of `page_size` bytes: the header, the body
/// of a page without records behind it, and zeros.
pub open spec fn new_data_page(page_id: u64, page_size: nat) -> Seq<u8> {
    let with_header = new_data_page_header(page_id).image(blank_page(page_size));
    with_header.subrange(0, 28) + (DataPageView {
        num_records: 0,
        slot_array: Seq::empty(),
    }).image(with_header.subrange(28, page_size as int))
}

/// The header of a new index page: the free space starts behind the empty
/// body.
pub open spec fn new_index_page_header(page_id: u64) -> PageHeader {
    PageHeader { page_id, page_type: PageType::Index, checksum: 0, lsn: 0, free_space_pointer: 52 }
}

/// The bytes of a new index page of `page_size` bytes: the header, the body
/// of a node without keys and children behind it, and zeros.
pub open spec fn new_index_page(page_id: u64, is_leaf: bool, page_size: nat) -> Seq<u8> {
    let with_header = new_index_page_header(page_id).image(blank_page(page_size));
    with_header.subrange(0, 28) + (IndexPageView {
        is_leaf,
        next_leaf: 0,
        keys: Seq::empty(),
        child_pointers: Seq::empty(),
    }).image(with_header.subrange(28, page_size as int))
}

/// The bytes of page 0 of a new file with pages of `page_size` bytes: the
/// header of a metadata page, the metadata of a file of one page behind the
/// padded header, and zeros.
pub open spec fn initial_page(page_size: u32) -> Seq<u8> {
    let header = PageHeader {
        page_id: 0,
        page_type: PageType::Metadata,
        checksum: 0,
        lsn: 0,
        free_space_pointer: 32,
    };
    let metadata = MetadataPage {
        db_version: 1,
        page_size,
        root_page_id: 0,
        first_free_list_page: 0,
        total_pages: 1,
    };
    let with_header = header.image(blank_page(page_size as nat));
    with_header.subrange(0, 32) + metadata.image(with_header.subrange(32, page_size as int))
}

/// The bookkeeping of one paged file: the size of its pages and the pages
/// that are held in memory.
pub struct PagedFileManager {
    /// Size of every page of the file in bytes.
    pub page_size: u32,
    /// The pages that are held in memory.
    pub buffer_pool: BufferPool,
    /// Number of pages that the pool holds before it evicts.
    pub max_cache_size: usize,
}

impl PagedFileManager {
    /// Identifier of the metadata page.
    pub const METADATA_PAGE_ID: u64 = 0;

    /// End of the body of a new data page, and with it the least page size
    /// that can hold one.
    pub const NEW_DATA_PAGE_END: usize = 36;

    /// End of the body of a new index page, and with it the least page size
    /// that can hold one.
    pub const NEW_INDEX_PAGE_END: usize = 52;

    /// The pool of the manager is well formed.
    pub open spec fn well_formed(&self) -> bool {
        self.buffer_pool@.well_formed()
    }

    /// `before` is the metadata page that an operation finds: the one in the
    /// pool, or else one that the loader hands out.
    pub open spec fn finds_metadata<F: FnOnce() -> Result<Vec<u8>, E>, E>(
        &self,
        loader: F,
        before: Vec<u8>,
    ) -> bool {
        if self.buffer_pool@.pages.contains_key(0) {
            before == self.buffer_pool@.pages[0]
        } else {
            loader.ensures((), Ok::<Vec<u8>, E>(before))
        }
    }

    /// The pool once the metadata page was found and left as `after`: used,
    /// where it was in the pool, and loaded, where it was not.
    pub open spec fn pool_with_metadata(&self, after: Vec<u8>) -> PoolState {
        if self.buffer_pool@.pages.contains_key(0) {
            self.buffer_pool@.touched(0).with_page(0, after)
        } else {
            self.buffer_pool@.with_loaded(self.max_cache_size as nat, 0, after)
        }
    }

    /// The manager went from `self` to `after` by an allocation that gave out
    /// `page_id`: it found a metadata page that allowed the allocation, and
    /// left it in the pool with `page_id` as its number of pages.
    pub open spec fn allocated<F: FnOnce() -> Result<Vec<u8>, E>, E>(
        &self,
        loader: F,
        after: PagedFileManager,
        page_id: u64,
    ) -> bool {
        &&& after.page_size == self.page_size
        &&& after.max_cache_size == self.max_cache_size
        &&& after.buffer_pool@.pages.contains_key(0)
        &&& after.buffer_pool@ == self.pool_with_metadata(after.buffer_pool@.pages[0])
        &&& exists|before: Vec<u8>|
            {
                &&& #[trigger] self.finds_metadata(loader, before)
                &&& allocation_refusal(before@) is None
                &&& page_id == next_page_id(before@)
                &&& after.buffer_pool@.pages[0]@ == page_after_allocation(before@)
            }
    }

    /// The manager went from `self` to `after` by an allocation that the
    /// metadata page refused with `error`: the page was found and is in the
    /// pool with the bytes that it was found with.
    pub open spec fn allocation_refused<F: FnOnce() -> Result<Vec<u8>, E>, E>(
        &self,
        loader: F,
        after: PagedFileManager,
        error: PageError,
    ) -> bool {
        &&& after.page_size == self.page_size
        &&& after.max_cache_size == self.max_cache_size
        &&& after.buffer_pool@.pages.contains_key(0)
        &&& after.buffer_pool@ == self.pool_with_metadata(after.buffer_pool@.pages[0])
        &&& exists|before: Vec<u8>|
            {
                &&& #[trigger] self.finds_metadata(loader, before)
                &&& allocation_refusal(before@) == Some(error)
                &&& after.buffer_pool@.pages[0]@ == before@
            }
    }

    /// A manager for a file with the page size and the pool limit of
    /// `config`, with nothing in its pool.
    pub fn new(config: PagedFileManagerConfig) -> (manager: PagedFileManager)
        ensures
            manager.page_size == config.spec_page_size(),
            manager.max_cache_size == config.spec_max_cache_size(),
            manager.buffer_pool@.pages == Map::<u64, Vec<u8>>::empty(),
            manager.buffer_pool@.recency == Seq::<u64>::empty(),
            manager.well_formed(),
    {
        PagedFileManager {
            page_size: config.page_size(),
            buffer_pool: BufferPool::new(),
            max_cache_size: config.max_cache_size(),
        }
    }

    /// Byte offset of page `page_id` in the file; `None` where the offset is
    /// not a `u64`.
    pub fn page_offset(&self, page_id: u64) -> (offset: Option<u64>)
        ensures
            match offset {
                Some(offset) => offset == page_id * self.page_size,
                None => page_id * self.page_size > u64::MAX,
            },
    {
        page_offset(page_id, self.page_size)
    }

    /// What has to be written to an empty file: page 0, the metadata page of
    /// a file that has this one page. A page size that cannot hold the
    /// header and the metadata is refused with `BufferTooSmall`.
    pub fn initialize_file(&self) -> (write: Result<PageWrite, PageError>)
        ensures
            match write {
                Ok(write) => {
                    &&& self.page_size >= METADATA_PAGE_MIN_SIZE
                    &&& write@ == (0u64, initial_page(self.page_size))
                    &&& write.data@.len() == self.page_size
                },
                Err(error) => {
                    &&& self.page_size < METADATA_PAGE_MIN_SIZE
                    &&& error == PageError::BufferTooSmall
                },
            },
    {
        let header: PageHeader = PageHeader::new(
            PagedFileManager::METADATA_PAGE_ID,
            PageType::Metadata,
        );
        let end_of_header: usize = PageHeader::size();
        let metadata_offset: usize = end_of_header + padding_needed_from_size(
            end_of_header,
            MetadataPage::TOTAL_PAGES_SIZE,
        );
        assert(metadata_offset == PageHeader::SIZE);
        let metadata_page: MetadataPage = MetadataPage::intial_page(self.page_size);
        match build_page(&header, &metadata_page, metadata_offset, self.page_size) {
            Ok(page_buffer) => Ok(
                PageWrite { page_id: PagedFileManager::METADATA_PAGE_ID, data: page_buffer },
            ),
            Err(error) => Err(error),
        }
    }

    /// Hands out page `page_id` of the pool `cache`, for reading and writing,
    /// as the most recently used page. A page that is not in the pool is
    /// loaded first: `loader` is called, once, and what it loaded enters the
    /// pool, after the least recently used page left it where the pool held
    /// `max_cache_size` pages or more. Where the loader fails, its error is
    /// handed on and the pool stays as it was.
    pub fn load_into_buffer_pool<F, E>(
        cache: &mut BufferPool,
        max_cache_size: usize,
        page_id: u64,
        loader: F,
    ) -> (page: Result<&mut Vec<u8>, E>) where F: FnOnce() -> Result<Vec<u8>, E>
        requires
            old(cache)@.well_formed(),
            !old(cache)@.pages.contains_key(page_id) ==> loader.requires(()),
        ensures
            match page {
                Ok(page) => if old(cache)@.pages.contains_key(page_id) {
                    &&& *page == old(cache)@.pages[page_id]
                    &&& final(cache)@ == old(cache)@.touched(page_id).with_page(
                        page_id,
                        *final(page),
                    )
                } else {
                    &&& loader.ensures((), Ok::<Vec<u8>, E>(*page))
                    &&& final(cache)@ == old(cache)@.with_loaded(
                        max_cache_size as nat,
                        page_id,
                        *final(page),
                    )
                },
                Err(error) => {
                    &&& !old(cache)@.pages.contains_key(page_id)
                    &&& loader.ensures((), Err::<Vec<u8>, E>(error))
                    &&& *final(cache) == *old(cache)
                },
            },
            final(cache)@.well_formed(),
    {
        if !cache.contains_key(page_id) {
            let loaded: Result<Vec<u8>, E> = loader();
            cache.insert_loaded(max_cache_size, page_id, loaded)
        } else {
            Ok(cache.get_mut(page_id))
        }
    }

    /// Allocates a page: finds the metadata page, in the pool or through
    /// `loader`, gives out one more than the number of pages that it records
    /// as the identifier of the new page, records that identifier as the new
    /// number of pages, and returns what has to be written: the metadata
    /// page, then a page of zeros in the place of the new page. The free list
    /// is not consulted.
    pub fn allocate_page<F, E>(&mut self, loader: F) -> (allocation: Result<
        Allocation,
        ManagerError<E>,
    >) where F: FnOnce() -> Result<Vec<u8>, E>
        requires
            old(self).well_formed(),
            !old(self).buffer_pool@.pages.contains_key(0) ==> loader.requires(()),
        ensures
            match allocation {
                Ok(allocation) => {
                    &&& old(self).allocated(loader, *final(self), allocation.page_id)
                    &&& write_views(allocation.writes@) == seq![
                        (0u64, final(self).buffer_pool@.pages[0]@),
                        (allocation.page_id, blank_page(old(self).page_size as nat)),
                    ]
                },
                Err(ManagerError::Page(error)) => old(self).allocation_refused(
                    loader,
                    *final(self),
                    error,
                ),
                Err(ManagerError::Io(error)) => {
                    &&& !old(self).buffer_pool@.pages.contains_key(0)
                    &&& loader.ensures((), Err::<Vec<u8>, E>(error))
                    &&& *final(self) == *old(self)
                },
            },
            final(self).well_formed(),
    {
        let page_size: u32 = self.page_size;
        let page_bytes: &mut Vec<u8> = match PagedFileManager::load_into_buffer_pool(
            &mut self.buffer_pool,
            self.max_cache_size,
            PagedFileManager::METADATA_PAGE_ID,
            loader,
        ) {
            Ok(page_bytes) => page_bytes,
            Err(error) => {
                return Err(ManagerError::Io(error));
            },
        };
        let ghost before: Vec<u8> = *page_bytes;
        match allocate_in(page_size, page_bytes) {
            Ok(allocation) => {
                proof {
                    assert(old(self).finds_metadata(loader, before));
                }
                Ok(allocation)
            },
            Err(error) => {
                proof {
                    assert(old(self).finds_metadata(loader, before));
                }
                Err(ManagerError::Page(error))
            },
        }
    }

    /// Creates a data page: allocates a page as `allocate_page` does, and
    /// adds to what has to be written the new page itself, with the header
    /// of a data page, whose free space starts behind the body, and the body
    /// of a page without records. A page size that cannot hold the two is
    /// refused with `BufferTooSmall` before anything is allocated.
    pub fn create_data_page<F, E>(&mut self, loader: F) -> (created: Result<
        Allocation,
        ManagerError<E>,
    >) where F: FnOnce() -> Result<Vec<u8>, E>
        requires
            old(self).well_formed(),
            !old(self).buffer_pool@.pages.contains_key(0) ==> loader.requires(()),
        ensures
            if old(self).page_size < PagedFileManager::NEW_DATA_PAGE_END {
                &&& created matches Err(ManagerError::Page(error))
                &&& error == PageError::BufferTooSmall
                &&& *final(self) == *old(self)
            } else {
                match created {
                    Ok(allocation) => {
                        &&& old(self).allocated(loader, *final(self), allocation.page_id)
                        &&& write_views(allocation.writes@) == seq![
                            (0u64, final(self).buffer_pool@.pages[0]@),
                            (allocation.page_id, blank_page(old(self).page_size as nat)),
                            (
                                allocation.page_id,
                                new_data_page(allocation.page_id, old(self).page_size as nat),
                            ),
                        ]
                    },
                    Err(ManagerError::Page(error)) => old(self).allocation_refused(
                        loader,
                        *final(self),
                        error,
                    ),
                    Err(ManagerError::Io(error)) => {
                        &&& !old(self).buffer_pool@.pages.contains_key(0)
                        &&& loader.ensures((), Err::<Vec<u8>, E>(error))
                        &&& *final(self) == *old(self)
                    },
                }
            },
            final(self).well_formed(),
    {
        let page_size: u32 = self.page_size;
        let data_page: DataPage = DataPage::new();
        let data_page_offset: usize = PageHeader::size() + padding_needed_from_size(
            PageHeader::size(),
            DataPage::NUM_RECORDS_SIZE,
        );
        let free_space_pointer: usize = data_page_offset + data_page.size();
        assert(free_space_pointer == PagedFileManager::NEW_DATA_PAGE_END);
        if (page_size as usize) < free_space_pointer {
            return Err(ManagerError::Page(PageError::BufferTooSmall));
        }
        let mut allocation: Allocation = match self.allocate_page(loader) {
            Ok(allocation) => allocation,
            Err(error) => {
                return Err(error);
            },
        };
        let page_id: u64 = allocation.page_id;
        let mut header: PageHeader = PageHeader::new(page_id, PageType::Data);
        header.free_space_pointer = free_space_pointer as u32;
        let page_buffer: Vec<u8> = match build_page(
            &header,
            &data_page,
            data_page_offset,
            page_size,
        ) {
            Ok(page_buffer) => page_buffer,
            Err(error) => {
                return Err(ManagerError::Page(error));
            },
        };
        let ghost first_writes: Seq<PageWrite> = allocation.writes@;
        allocation.writes.push(PageWrite { page_id, data: page_buffer });
        proof {
            assert(write_views(first_writes).len() == 2);
            assert(first_writes.len() == 2);
            assert(write_views(first_writes)[0] == first_writes[0]@);
            assert(write_views(first_writes)[1] == first_writes[1]@);
            assert(write_views(allocation.writes@) =~= seq![
                (0u64, self.buffer_pool@.pages[0]@),
                (page_id, blank_page(page_size as nat)),
                (page_id, new_data_page(page_id, page_size as nat)),
            ]);
        }
        Ok(allocation)
    }

    /// Creates an index page: allocates a page as `allocate_page` does, and
    /// adds to what has to be written the new page itself, with the header
    /// of an index page, whose free space starts behind the body, and the
    /// body of a node without keys and children that is a leaf or not as
    /// `is_leaf` says. A page size that cannot hold the two is refused with
    /// `BufferTooSmall` before anything is allocated.
    pub fn create_index_page<F, E>(&mut self, is_leaf: bool, loader: F) -> (created: Result<
        Allocation,
        ManagerError<E>,
    >) where F: FnOnce() -> Result<Vec<u8>, E>
        requires
            old(self).well_formed(),
            !old(self).buffer_pool@.pages.contains_key(0) ==> loader.requires(()),
        ensures
            if old(self).page_size < PagedFileManager::NEW_INDEX_PAGE_END {
                &&& created matches Err(ManagerError::Page(error))
                &&& error == PageError::BufferTooSmall
                &&& *final(self) == *old(self)
            } else {
                match created {
                    Ok(allocation) => {
                        &&& old(self).allocated(loader, *final(self), allocation.page_id)
                        &&& write_views(allocation.writes@) == seq![
                            (0u64, final(self).buffer_pool@.pages[0]@),
                            (allocation.page_id, blank_page(old(self).page_size as nat)),
                            (
                                allocation.page_id,
                                new_index_page(
                                    allocation.page_id,
                                    is_leaf,
                                    old(self).page_size as nat,
                                ),
                            ),
                        ]
                    },
                    Err(ManagerError::Page(error)) => old(self).allocation_refused(
                        loader,
                        *final(self),
                        error,
                    ),
                    Err(ManagerError::Io(error)) => {
                        &&& !old(self).buffer_pool@.pages.contains_key(0)
                        &&& loader.ensures((), Err::<Vec<u8>, E>(error))
                        &&& *final(self) == *old(self)
                    },
                }
            },
            final(self).well_formed(),
    {
        let page_size: u32 = self.page_size;
        let index_page: IndexPage = IndexPage::new(is_leaf);
        let index_page_offset: usize = PageHeader::size() + padding_needed_from_size(
            PageHeader::size(),
            IndexPage::IS_LEAF_SIZE,
        );
        proof {
            lemma_empty_index_page_size(index_page@);
        }
        let free_space_pointer: usize = index_page_offset + index_page.calc_size();
        assert(free_space_pointer == PagedFileManager::NEW_INDEX_PAGE_END);
        if (page_size as usize) < free_space_pointer {
            return Err(ManagerError::Page(PageError::BufferTooSmall));
        }
        let mut allocation: Allocation = match self.allocate_page(loader) {
            Ok(allocation) => allocation,
            Err(error) => {
                return Err(error);
            },
        };
        let page_id: u64 = allocation.page_id;
        let mut header: PageHeader = PageHeader::new(page_id, PageType::Index);
        header.free_space_pointer = free_space_pointer as u32;
        let page_buffer: Vec<u8> = match build_page(
            &header,
            &index_page,
            index_page_offset,
            page_size,
        ) {
            Ok(page_buffer) => page_buffer,
            Err(error) => {
                return Err(ManagerError::Page(error));
            },
        };
        let ghost first_writes: Seq<PageWrite> = allocation.writes@;
        allocation.writes.push(PageWrite { page_id, data: page_buffer });
        proof {
            assert(write_views(first_writes).len() == 2);
            assert(first_writes.len() == 2);
            assert(write_views(first_writes)[0] == first_writes[0]@);
            assert(write_views(first_writes)[1] == first_writes[1]@);
            assert(write_views(allocation.writes@) =~= seq![
                (0u64, self.buffer_pool@.pages[0]@),
                (page_id, blank_page(page_size as nat)),
                (page_id, new_index_page(page_id, is_leaf, page_size as nat)),
            ]);
        }
        Ok(allocation)
    }
}

/// The body of an index page without keys and children takes 24 bytes.
pub proof fn lemma_empty_index_page_size(page: IndexPageView)
    requires
        page.keys.len() == 0,
        page.child_pointers.len() == 0,
    ensures
        page.encoded_size() == 24,
        page.uniform_keys(),
{
    lemma_padding_to(20, 4);
    lemma_padding_to(24, 8);
}

/// What is read back from a new data page of at least 36 bytes: the header
/// of a data page with the identifier of the page, whose free space starts
/// at 36, inside the page; and behind the header a body without records and
/// without slots.
pub proof fn lemma_new_data_page(page_id: u64, page_size: nat)
    requires
        page_size >= 36,
    ensures
        new_data_page(page_id, page_size).len() == page_size,
        PageHeader::parse(new_data_page(page_id, page_size)) == Ok::<PageHeader, PageError>(
            new_data_page_header(page_id),
        ),
        new_data_page_header(page_id).well_formed(page_size),
        parse_data_page(new_data_page(page_id, page_size).subrange(28, page_size as int))
            == Ok::<DataPageView, PageError>(
            DataPageView { num_records: 0, slot_array: Seq::empty() },
        ),
{
    let header = new_data_page_header(page_id);
    let body = DataPageView { num_records: 0, slot_array: Seq::empty() };
    let blank = blank_page(page_size);
    let with_header = header.image(blank);
    let rest = with_header.subrange(28, page_size as int);
    let page = new_data_page(page_id, page_size);
    lemma_header_round_trip(header, blank);
    lemma_data_page_round_trip(body, rest);
    assert(page.subrange(28, page_size as int) =~= body.image(rest));
    assert(page.subrange(0, 8) =~= with_header.subrange(0, 8));
    assert(page.subrange(8, 9) =~= with_header.subrange(8, 9));
    assert(page.subrange(12, 16) =~= with_header.subrange(12, 16));
    assert(page.subrange(16, 24) =~= with_header.subrange(16, 24));
    assert(page.subrange(24, 28) =~= with_header.subrange(24, 28));
}

/// What is read back from a new index page of at least 52 bytes: the header
/// of an index page with the identifier of the page, whose free space starts
/// at 52, inside the page; and behind the header the leaf flag as it was
/// asked for, no next leaf, no keys and no child pointers.
pub proof fn lemma_new_index_page(page_id: u64, is_leaf: bool, page_size: nat)
    requires
        page_size >= 52,
    ensures
        new_index_page(page_id, is_leaf, page_size).len() == page_size,
        PageHeader::parse(new_index_page(page_id, is_leaf, page_size)) == Ok::<
            PageHeader,
            PageError,
        >(new_index_page_header(page_id)),
        new_index_page_header(page_id).well_formed(page_size),
        number_at(new_index_page(page_id, is_leaf, page_size), 28, 1) == if is_leaf {
            1nat
        } else {
            0nat
        },
        number_at(new_index_page(page_id, is_leaf, page_size), 36, 8) == 0,
        number_at(new_index_page(page_id, is_leaf, page_size), 44, 4) == 0,
        number_at(new_index_page(page_id, is_leaf, page_size), 48, 4) == 0,
{
    let header = new_index_page_header(page_id);
    let body = IndexPageView {
        is_leaf,
        next_leaf: 0,
        keys: Seq::empty(),
        child_pointers: Seq::empty(),
    };
    let blank = blank_page(page_size);
    let with_header = header.image(blank);
    let rest = with_header.subrange(28, page_size as int);
    let page = new_index_page(page_id, is_leaf, page_size);
    let image = body.image(rest);
    lemma_header_round_trip(header, blank);
    lemma_empty_index_page_size(body);
    lemma_index_page_layout(body, rest);
    lemma_padding_to(20, 4);
    assert(child_count_offset(0, 0) == 20);
    assert(page.subrange(0, 8) =~= with_header.subrange(0, 8));
    assert(page.subrange(8, 9) =~= with_header.subrange(8, 9));
    assert(page.subrange(12, 16) =~= with_header.subrange(12, 16));
    assert(page.subrange(16, 24) =~= with_header.subrange(16, 24));
    assert(page.subrange(24, 28) =~= with_header.subrange(24, 28));
    assert(bytes_at(page, 28, 1) =~= bytes_at(image, 0, 1));
    assert(bytes_at(page, 36, 8) =~= bytes_at(image, 8, 8));
    assert(bytes_at(page, 44, 4) =~= bytes_at(image, 16, 4));
    assert(bytes_at(page, 48, 4) =~= bytes_at(image, 20, 4));
}

/// What is read back from page 0 of a new file with pages of at least 64
/// bytes: the header of the metadata page, and behind the padded header the
/// version of the format, the page size, no index, no free list, and one
/// page.
pub proof fn lemma_initial_page(page_size: u32)
    requires
        page_size >= 64,
    ensures
        initial_page(page_size).len() == page_size,
        PageHeader::parse(initial_page(page_size)) == Ok::<PageHeader, PageError>(
            PageHeader {
                page_id: 0,
                page_type: PageType::Metadata,
                checksum: 0,
                lsn: 0,
                free_space_pointer: 32,
            },
        ),
        number_at(initial_page(page_size), 32, 4) == 1,
        number_at(initial_page(page_size), 36, 4) == page_size,
        number_at(initial_page(page_size), 40, 8) == 0,
        number_at(initial_page(page_size), 48, 8) == 0,
        total_pages_in(initial_page(page_size)) == 1,
        allocation_refusal(initial_page(page_size)) is None,
{
    let header = PageHeader {
        page_id: 0,
        page_type: PageType::Metadata,
        checksum: 0,
        lsn: 0,
        free_space_pointer: 32,
    };
    let metadata = MetadataPage {
        db_version: 1,
        page_size,
        root_page_id: 0,
        first_free_list_page: 0,
        total_pages: 1,
    };
    let blank = blank_page(page_size as nat);
    let with_header = header.image(blank);
    let rest = with_header.subrange(32, page_size as int);
    let image = metadata.image(rest);
    let page = initial_page(page_size);
    lemma_header_round_trip(header, blank);
    lemma_metadata_layout_in_image(metadata, rest);
    assert(page == with_header.subrange(0, 32) + image);
    assert(page.subrange(0, 8) =~= with_header.subrange(0, 8));
    assert(page.subrange(8, 9) =~= with_header.subrange(8, 9));
    assert(page.subrange(12, 16) =~= with_header.subrange(12, 16));
    assert(page.subrange(16, 24) =~= with_header.subrange(16, 24));
    assert(page.subrange(24, 28) =~= with_header.subrange(24, 28));
    assert(bytes_at(page, 32, 4) =~= bytes_at(image, 0, 4));
    assert(bytes_at(page, 36, 4) =~= bytes_at(image, 4, 4));
    assert(bytes_at(page, 40, 8) =~= bytes_at(image, 8, 8));
    assert(bytes_at(page, 48, 8) =~= bytes_at(image, 16, 8));
    assert(bytes_at(page, 56, 8) =~= bytes_at(image, 24, 8));
}

} // verus!
